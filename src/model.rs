//! A model of the drive's media as a sequence of bytes, and the laws that
//! relate it to the driver's reads and writes.
use vstd::prelude::*;

use crate::ata::{aligned, lemma_required_sectors_cover, lemma_word_bytes, merged_byte, required_sectors, stream_byte, word_of};

verus! {

/// The `count` sectors from sector `lba` of the media `d`, as the drive
/// sends them: little-endian data words.
pub open spec fn sector_words(d: Seq<u8>, lba: int, count: int) -> Seq<u16> {
    Seq::new(
        (256 * count) as nat,
        |w: int| word_of(d[512 * lba + 2 * w], d[512 * lba + 2 * w + 1]),
    )
}

/// The media after `words` were written from sector `lba` on.
pub open spec fn media_after_write(d: Seq<u8>, lba: int, words: Seq<u16>) -> Seq<u8> {
    Seq::new(
        d.len(),
        |i: int|
            if 512 * lba <= i < 512 * lba + 2 * words.len() {
                stream_byte(words, i - 512 * lba)
            } else {
                d[i]
            },
    )
}

/// The sector `lba` of `d` where it is read back before a write, else nothing.
pub open spec fn preserved_sector(d: Seq<u8>, lba: int, needed: bool) -> Seq<u16> {
    if needed {
        sector_words(d, lba, 1)
    } else {
        Seq::empty()
    }
}

/// Byte `k` of the data of sectors read from `lba` is the media's byte at
/// `512 * lba + k`.
pub proof fn lemma_sector_stream_byte(d: Seq<u8>, lba: int, count: int, k: int)
    requires
        lba >= 0,
        0 <= k < 512 * count,
        512 * (lba + count) <= d.len(),
    ensures
        stream_byte(sector_words(d, lba, count), k) == d[512 * lba + k],
{
    let w = k / 2;
    assert(0 <= w < 256 * count);
    lemma_word_bytes(d[512 * lba + 2 * w], d[512 * lba + 2 * w + 1]);
}

/// A read of `len` bytes at `pos` yields exactly the media's bytes at
/// `[pos, pos + len)`. So two reads of one range with no write between
/// them yield the same bytes.
pub proof fn lemma_read_yields_media(d: Seq<u8>, pos: int, len: int)
    requires
        pos >= 0,
        len >= 0,
        512 * (pos / 512 + required_sectors(pos, len)) <= d.len(),
    ensures
        forall|j: int|
            0 <= j < len ==> #[trigger] stream_byte(
                sector_words(d, pos / 512, required_sectors(pos, len)),
                pos % 512 + j,
            ) == d[pos + j],
{
    lemma_required_sectors_cover(pos, len);
    assert forall|j: int| 0 <= j < len implies #[trigger] stream_byte(
        sector_words(d, pos / 512, required_sectors(pos, len)),
        pos % 512 + j,
    ) == d[pos + j] by {
        lemma_sector_stream_byte(d, pos / 512, required_sectors(pos, len), pos % 512 + j);
    }
}

/// A write of `buf` at `pos` changes the media's bytes at
/// `[pos, pos + buf.len())` to `buf`, and leaves every other byte as it was,
/// those of the sectors it covers only in part included. `words` is any
/// word sequence that the driver's `write` may return when it was handed the
/// partially covered sectors as read from `d`.
pub proof fn lemma_write_effect(d: Seq<u8>, pos: int, buf: Seq<u8>, words: Seq<u16>)
    requires
        pos >= 0,
        buf.len() > 0,
        512 * (pos / 512 + required_sectors(pos, buf.len() as int)) <= d.len(),
        words.len() == 256 * required_sectors(pos, buf.len() as int),
        forall|k: int|
            0 <= k < 2 * words.len() ==> stream_byte(words, k) == merged_byte(
                preserved_sector(d, pos / 512, !aligned(pos)),
                preserved_sector(d, (pos + buf.len()) / 512, !aligned(pos + buf.len())),
                buf,
                pos % 512,
                required_sectors(pos, buf.len() as int),
                k,
            ),
    ensures
        media_after_write(d, pos / 512, words).len() == d.len(),
        forall|i: int|
            0 <= i < d.len() ==> #[trigger] media_after_write(d, pos / 512, words)[i] == if pos <= i
                < pos + buf.len() {
                buf[i - pos]
            } else {
                d[i]
            },
{
    let lba = pos / 512;
    let off = pos % 512;
    let len = buf.len() as int;
    let count = required_sectors(pos, len);
    lemma_required_sectors_cover(pos, len);
    let d2 = media_after_write(d, lba, words);
    assert forall|i: int| 0 <= i < d.len() implies #[trigger] d2[i] == if pos <= i < pos + len {
        buf[i - pos]
    } else {
        d[i]
    } by {
        if 512 * lba <= i < 512 * lba + 2 * words.len() {
            let k = i - 512 * lba;
            if k < off {
                lemma_sector_stream_byte(d, lba, 1, k);
            } else if k < off + len {
            } else {
                let elba = (pos + len) / 512;
                assert(elba == lba + count - 1);
                lemma_sector_stream_byte(d, elba, 1, k - 512 * (count - 1));
            }
        }
    }
}

/// Reading back what was written: after a write of `buf` at `pos`, a read of
/// `buf.len()` bytes at `pos` yields `buf`.
pub proof fn lemma_write_read_round_trip(d: Seq<u8>, pos: int, buf: Seq<u8>, words: Seq<u16>)
    requires
        pos >= 0,
        buf.len() > 0,
        512 * (pos / 512 + required_sectors(pos, buf.len() as int)) <= d.len(),
        words.len() == 256 * required_sectors(pos, buf.len() as int),
        forall|k: int|
            0 <= k < 2 * words.len() ==> stream_byte(words, k) == merged_byte(
                preserved_sector(d, pos / 512, !aligned(pos)),
                preserved_sector(d, (pos + buf.len()) / 512, !aligned(pos + buf.len())),
                buf,
                pos % 512,
                required_sectors(pos, buf.len() as int),
                k,
            ),
    ensures
        forall|j: int|
            0 <= j < buf.len() ==> #[trigger] stream_byte(
                sector_words(
                    media_after_write(d, pos / 512, words),
                    pos / 512,
                    required_sectors(pos, buf.len() as int),
                ),
                pos % 512 + j,
            ) == buf[j],
{
    let d2 = media_after_write(d, pos / 512, words);
    lemma_write_effect(d, pos, buf, words);
    lemma_read_yields_media(d2, pos, buf.len() as int);
    assert forall|j: int| 0 <= j < buf.len() implies #[trigger] stream_byte(
        sector_words(d2, pos / 512, required_sectors(pos, buf.len() as int)),
        pos % 512 + j,
    ) == buf[j] by {
        assert(d2[pos + j] == buf[j]);
    }
}

} // verus!
