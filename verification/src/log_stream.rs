//! Decoding of the firmware's log byte stream.
//!
//! The stream interleaves plain UTF-8 text with frames introduced by bytes
//! that can never begin a UTF-8 sequence: a string-table reference (one
//! address byte, with the five lowest addresses reserved for level markers)
//! and an embedded timestamp (three little-endian tick bytes). Decoding stops
//! at an incomplete trailing frame or an incomplete UTF-8 code point: those
//! bytes stay in the buffer until the next drain appends the rest.

use vstd::prelude::*;
use vstd::utf8::{
    is_continuation_byte, is_leading_byte_width_1, length_of_first_scalar, valid_first_scalar,
};

use crate::diag::{Level, Timestamp, level_of};

verus! {

/// The frame tag for a reference into the compressed string table; never a
/// valid first byte of a UTF-8 sequence.
pub const TAG_SYMTAB_STRING: u8 = 0xff;

/// The frame tag for an embedded relative timestamp; never a valid first
/// byte of a UTF-8 sequence.
pub const TAG_TIMESTAMP: u8 = 0xfe;

/// The length in bytes of the well-formed UTF-8 scalar encoding starting at
/// position `i`, or `None` when no well-formed encoding starts there
/// (whether invalid or merely truncated by the end of the buffer).
fn utf8_scalar_len_at(bytes: &Vec<u8>, i: usize) -> (r: Option<u8>)
    requires
        i <= bytes@.len(),
    ensures
        r is Some <==> valid_first_scalar(bytes@.skip(i as int)),
        (r matches Some(k) ==> 1 <= k <= 4 && k as int == length_of_first_scalar(
            bytes@.skip(i as int),
        ) && i + k <= bytes@.len()),
{
    let ghost s = bytes@.skip(i as int);
    let n = bytes.len();
    if i >= n {
        return None;
    }
    let b0 = bytes[i];
    proof {
        assert(s[0] == b0);
    }
    if b0 <= 0x7f {
        proof {
            assert(is_leading_byte_width_1(b0));
            assert((b0 & 0x7f) <= 0x7f) by (bit_vector);
        }
        return Some(1);
    }
    if b0 < 0xc2 {
        // continuation bytes and the two overlong two-byte leads
        proof {
            if 0xc0 <= b0 && s.len() >= 2 && is_continuation_byte(s[1]) {
                let b1 = s[1];
                assert((((b0 & 0x1f) as u32) << 6) | ((b1 & 0x3f) as u32) < 0x80)
                    by (bit_vector)
                    requires
                        0xc0 <= b0 <= 0xc1,
                        0x80 <= b1 <= 0xbf,
                ;
            }
        }
        return None;
    }
    if b0 <= 0xdf {
        if n - i < 2 {
            return None;
        }
        let b1 = bytes[i + 1];
        proof {
            assert(s[1] == b1);
        }
        if b1 < 0x80 || b1 > 0xbf {
            return None;
        }
        proof {
            let cp = (((b0 & 0x1f) as u32) << 6) | ((b1 & 0x3f) as u32);
            assert(0x80 <= cp && cp <= 0x7ff) by (bit_vector)
                requires
                    cp == (((b0 & 0x1f) as u32) << 6) | ((b1 & 0x3f) as u32),
                    0xc2 <= b0 <= 0xdf,
                    0x80 <= b1 <= 0xbf,
            ;
        }
        return Some(2);
    }
    if b0 <= 0xef {
        if n - i < 3 {
            return None;
        }
        let b1 = bytes[i + 1];
        let b2 = bytes[i + 2];
        proof {
            assert(s[1] == b1 && s[2] == b2);
        }
        if b1 < 0x80 || b1 > 0xbf || b2 < 0x80 || b2 > 0xbf {
            return None;
        }
        let ghost cp = ((((b0 & 0x0f) as u32) << 12) | (((b1 & 0x3f) as u32) << 6)) | ((b2
            & 0x3f) as u32);
        if b0 == 0xe0 && b1 < 0xa0 {
            // overlong three-byte encoding
            proof {
                assert(cp < 0x800) by (bit_vector)
                    requires
                        cp == ((((b0 & 0x0f) as u32) << 12) | (((b1 & 0x3f) as u32) << 6)) | ((b2
                            & 0x3f) as u32),
                        b0 == 0xe0,
                        0x80 <= b1 < 0xa0,
                        0x80 <= b2 <= 0xbf,
                ;
            }
            return None;
        }
        if b0 == 0xed && b1 > 0x9f {
            // the surrogate range
            proof {
                assert(0xd800 <= cp && cp <= 0xdfff) by (bit_vector)
                    requires
                        cp == ((((b0 & 0x0f) as u32) << 12) | (((b1 & 0x3f) as u32) << 6)) | ((b2
                            & 0x3f) as u32),
                        b0 == 0xed,
                        0x9f < b1 <= 0xbf,
                        0x80 <= b2 <= 0xbf,
                ;
            }
            return None;
        }
        proof {
            assert(0x800 <= cp && !(0xd800 <= cp <= 0xdfff)) by (bit_vector)
                requires
                    cp == ((((b0 & 0x0f) as u32) << 12) | (((b1 & 0x3f) as u32) << 6)) | ((b2
                        & 0x3f) as u32),
                    0xe0 <= b0 <= 0xef,
                    0x80 <= b1 <= 0xbf,
                    0x80 <= b2 <= 0xbf,
                    b0 == 0xe0 ==> b1 >= 0xa0,
                    b0 == 0xed ==> b1 <= 0x9f,
            ;
        }
        return Some(3);
    }
    if b0 <= 0xf4 {
        if n - i < 4 {
            return None;
        }
        let b1 = bytes[i + 1];
        let b2 = bytes[i + 2];
        let b3 = bytes[i + 3];
        proof {
            assert(s[1] == b1 && s[2] == b2 && s[3] == b3);
        }
        if b1 < 0x80 || b1 > 0xbf || b2 < 0x80 || b2 > 0xbf || b3 < 0x80 || b3 > 0xbf {
            return None;
        }
        let ghost cp = (((((b0 & 0x07) as u32) << 18) | (((b1 & 0x3f) as u32) << 12)) | (((b2
            & 0x3f) as u32) << 6)) | ((b3 & 0x3f) as u32);
        if b0 == 0xf0 && b1 < 0x90 {
            // overlong four-byte encoding
            proof {
                assert(cp < 0x10000) by (bit_vector)
                    requires
                        cp == (((((b0 & 0x07) as u32) << 18) | (((b1 & 0x3f) as u32) << 12)) | (((
                        b2 & 0x3f) as u32) << 6)) | ((b3 & 0x3f) as u32),
                        b0 == 0xf0,
                        0x80 <= b1 < 0x90,
                        0x80 <= b2 <= 0xbf,
                        0x80 <= b3 <= 0xbf,
                ;
            }
            return None;
        }
        if b0 == 0xf4 && b1 > 0x8f {
            // beyond the last Unicode scalar
            proof {
                assert(cp > 0x10ffff) by (bit_vector)
                    requires
                        cp == (((((b0 & 0x07) as u32) << 18) | (((b1 & 0x3f) as u32) << 12)) | (((
                        b2 & 0x3f) as u32) << 6)) | ((b3 & 0x3f) as u32),
                        b0 == 0xf4,
                        0x8f < b1 <= 0xbf,
                        0x80 <= b2 <= 0xbf,
                        0x80 <= b3 <= 0xbf,
                ;
            }
            return None;
        }
        proof {
            assert(0x10000 <= cp && cp <= 0x10ffff) by (bit_vector)
                requires
                    cp == (((((b0 & 0x07) as u32) << 18) | (((b1 & 0x3f) as u32) << 12)) | (((b2
                        & 0x3f) as u32) << 6)) | ((b3 & 0x3f) as u32),
                    0xf0 <= b0 <= 0xf4,
                    0x80 <= b1 <= 0xbf,
                    0x80 <= b2 <= 0xbf,
                    0x80 <= b3 <= 0xbf,
                    b0 == 0xf0 ==> b1 >= 0x90,
                    b0 == 0xf4 ==> b1 <= 0x8f,
            ;
        }
        return Some(4);
    }
    // 0xf5..=0xf7 encode values beyond the last scalar; 0xf8.. lead nothing
    proof {
        if b0 <= 0xf7 && s.len() >= 4 && is_continuation_byte(s[1]) && is_continuation_byte(s[2])
            && is_continuation_byte(s[3]) {
            let b1 = s[1];
            let b2 = s[2];
            let b3 = s[3];
            assert((((((b0 & 0x07) as u32) << 18) | (((b1 & 0x3f) as u32) << 12)) | (((b2
                & 0x3f) as u32) << 6)) | ((b3 & 0x3f) as u32) > 0x10ffff)
                by (bit_vector)
                requires
                    0xf5 <= b0 <= 0xf7,
                    0x80 <= b1 <= 0xbf,
                    0x80 <= b2 <= 0xbf,
                    0x80 <= b3 <= 0xbf,
            ;
        }
    }
    None
}

/// The length of the longest prefix of `s` that is a well-formed UTF-8
/// encoding: scalar encodings are peeled off the front for as long as one
/// starts there.
pub open spec fn utf8_prefix_len(s: Seq<u8>) -> nat
    decreases s.len(),
{
    if valid_first_scalar(s) && 1 <= length_of_first_scalar(s) <= s.len() {
        (length_of_first_scalar(s) + utf8_prefix_len(s.skip(length_of_first_scalar(s)))) as nat
    } else {
        0
    }
}

/// The longest valid prefix never reaches past the end of the sequence.
pub proof fn lemma_utf8_prefix_len_bound(s: Seq<u8>)
    ensures
        utf8_prefix_len(s) <= s.len(),
    decreases s.len(),
{
    if valid_first_scalar(s) && 1 <= length_of_first_scalar(s) <= s.len() {
        lemma_utf8_prefix_len_bound(s.skip(length_of_first_scalar(s)));
    }
}

/// One element of the decoded log stream.
pub enum Fragment {
    /// A maximal run of plain UTF-8 text (never empty).
    Text(Vec<u8>),
    /// A level marker (a string-table reference at a reserved address).
    Level(Level),
    /// A reference into the compressed string table; the host looks the
    /// address up in the firmware's symbol table.
    CompressedString {
        /// The string-table address.
        addr: u64,
    },
    /// An embedded relative timestamp.
    Timestamp(Timestamp),
}

/// A fragment at specification level.
pub enum FragmentV {
    /// A maximal run of plain UTF-8 text.
    Text(Seq<u8>),
    /// A level marker.
    Level(Level),
    /// A string-table reference.
    CompressedString {
        /// The string-table address.
        addr: u64,
    },
    /// An embedded relative timestamp.
    Timestamp(Timestamp),
}

/// The specification-level value of a fragment.
pub open spec fn frag_view(f: Fragment) -> FragmentV {
    match f {
        Fragment::Text(v) => FragmentV::Text(v@),
        Fragment::Level(l) => FragmentV::Level(l),
        Fragment::CompressedString { addr } => FragmentV::CompressedString { addr },
        Fragment::Timestamp(t) => FragmentV::Timestamp(t),
    }
}

/// The specification-level values of a fragment sequence.
pub open spec fn frag_views(s: Seq<Fragment>) -> Seq<FragmentV> {
    s.map_values(|f: Fragment| frag_view(f))
}

proof fn lemma_frag_views_push(s: Seq<Fragment>, f: Fragment)
    ensures
        frag_views(s.push(f)) == frag_views(s).push(frag_view(f)),
{
    assert(frag_views(s.push(f)) =~= frag_views(s).push(frag_view(f)));
}

/// What decoding a log byte sequence yields, and how many bytes it consumes.
///
/// The longest valid UTF-8 prefix becomes a text fragment (when nonempty).
/// At the first non-UTF-8 byte: a complete string-table frame becomes a level
/// marker (for the reserved addresses) or a compressed-string reference, a
/// complete timestamp frame becomes a timestamp, and decoding continues after
/// the frame. Anything else — an incomplete trailing frame or an invalid or
/// truncated code point — stops decoding, leaving those bytes unconsumed for
/// the next drain to complete.
pub open spec fn decode_log_spec(s: Seq<u8>) -> (Seq<FragmentV>, int)
    decreases s.len(),
{
    let p = utf8_prefix_len(s) as int;
    let text: Seq<FragmentV> = if p > 0 {
        seq![FragmentV::Text(s.take(p))]
    } else {
        Seq::empty()
    };
    if p >= s.len() {
        (text, p)
    } else if s[p] == TAG_SYMTAB_STRING && p + 2 <= s.len() {
        let addr = s[p + 1] as u64;
        let frag = match level_of(addr) {
            Some(l) => FragmentV::Level(l),
            None => FragmentV::CompressedString { addr },
        };
        let (rest, c) = decode_log_spec(s.skip(p + 2));
        (text.push(frag) + rest, p + 2 + c)
    } else if s[p] == TAG_TIMESTAMP && p + 4 <= s.len() {
        let ticks = ((s[p + 1] as u32) | ((s[p + 2] as u32) << 8)) | ((s[p + 3] as u32) << 16);
        let (rest, c) = decode_log_spec(s.skip(p + 4));
        (text.push(FragmentV::Timestamp(Timestamp(ticks))) + rest, p + 4 + c)
    } else {
        (text, p)
    }
}

/// Copies `bytes[from..to]` into a fresh vector.
fn copy_range(bytes: &Vec<u8>, from: usize, to: usize) -> (r: Vec<u8>)
    requires
        from <= to <= bytes@.len(),
    ensures
        r@ == bytes@.subrange(from as int, to as int),
{
    let mut out: Vec<u8> = Vec::new();
    let mut i = from;
    while i < to
        invariant
            from <= i <= to <= bytes@.len(),
            out@ == bytes@.subrange(from as int, i as int),
        decreases to - i,
    {
        out.push(bytes[i]);
        proof {
            assert(out@ =~= bytes@.subrange(from as int, i + 1));
        }
        i = i + 1;
    }
    out
}

/// Decodes the drained log bytes into fragments, returning them along with
/// how many bytes were consumed; the unconsumed tail is an incomplete frame
/// or code point that the next drain will complete.
pub fn decode_log(bytes: &Vec<u8>) -> (r: (Vec<Fragment>, usize))
    ensures
        ({
            let (fr, c) = decode_log_spec(bytes@);
            frag_views(r.0@) == fr && r.1 as int == c
        }),
{
    let n = bytes.len();
    let mut frags: Vec<Fragment> = Vec::new();
    let mut i: usize = 0;
    proof {
        assert(bytes@.skip(0) =~= bytes@);
        assert(frag_views(frags@) =~= Seq::<FragmentV>::empty());
        assert(frag_views(frags@) + decode_log_spec(bytes@).0 =~= decode_log_spec(bytes@).0);
    }
    loop
        invariant
            i <= n,
            n == bytes@.len(),
            decode_log_spec(bytes@).0 == frag_views(frags@) + decode_log_spec(
                bytes@.skip(i as int),
            ).0,
            decode_log_spec(bytes@).1 == i + decode_log_spec(bytes@.skip(i as int)).1,
        decreases n - i,
    {
        let ghost s = bytes@.skip(i as int);
        // scan the longest valid UTF-8 run
        let mut j: usize = i;
        loop
            invariant
                i <= j <= n,
                n == bytes@.len(),
                s == bytes@.skip(i as int),
                utf8_prefix_len(s) == j - i + utf8_prefix_len(bytes@.skip(j as int)),
            ensures
                i <= j <= n,
                utf8_prefix_len(s) == j - i,
                utf8_prefix_len(bytes@.skip(j as int)) == 0,
            decreases n - j,
        {
            match utf8_scalar_len_at(bytes, j) {
                Some(k) => {
                    proof {
                        let t = bytes@.skip(j as int);
                        assert(t.skip(k as int) =~= bytes@.skip(j + k));
                        lemma_utf8_prefix_len_bound(t.skip(k as int));
                    }
                    j = j + k as usize;
                },
                None => {
                    break ;
                },
            }
        }
        proof {
            assert(utf8_prefix_len(bytes@.skip(j as int)) == 0);
            assert(utf8_prefix_len(s) == j - i);
        }
        let ghost p = utf8_prefix_len(s) as int;
        let ghost fv0 = frag_views(frags@);
        let ghost text_v: Seq<FragmentV> = if p > 0 {
            seq![FragmentV::Text(s.take(p))]
        } else {
            Seq::empty()
        };
        if j > i {
            let text = copy_range(bytes, i, j);
            proof {
                assert(text@ =~= s.take(p));
                lemma_frag_views_push(frags@, Fragment::Text(text));
            }
            frags.push(Fragment::Text(text));
        }
        proof {
            assert(frag_views(frags@) =~= fv0 + text_v);
        }
        if j >= n {
            // the whole suffix was text
            proof {
                assert(decode_log_spec(bytes@).0 =~= frag_views(frags@));
            }
            return (frags, j);
        }
        let b = bytes[j];
        proof {
            assert(s[p] == b);
        }
        if b == TAG_SYMTAB_STRING && n - j >= 2 {
            let addr = bytes[j + 1] as u64;
            proof {
                assert(s[p + 1] == bytes@[j + 1]);
            }
            let frag = match Level::try_from(addr) {
                Some(l) => Fragment::Level(l),
                None => Fragment::CompressedString { addr },
            };
            proof {
                lemma_frag_views_push(frags@, frag);
            }
            frags.push(frag);
            proof {
                assert(s.skip(p + 2) =~= bytes@.skip(j + 2));
                assert(frag_views(frags@) =~= fv0 + text_v.push(frag_view(frag)));
                assert(decode_log_spec(bytes@).0 =~= frag_views(frags@) + decode_log_spec(
                    bytes@.skip(j + 2),
                ).0);
            }
            i = j + 2;
        } else if b == TAG_TIMESTAMP && n - j >= 4 {
            let ticks = ((bytes[j + 1] as u32) | ((bytes[j + 2] as u32) << 8)) | ((bytes[j
                + 3] as u32) << 16);
            proof {
                assert(s[p + 1] == bytes@[j + 1] && s[p + 2] == bytes@[j + 2] && s[p + 3]
                    == bytes@[j + 3]);
            }
            let frag = Fragment::Timestamp(Timestamp(ticks));
            proof {
                lemma_frag_views_push(frags@, frag);
            }
            frags.push(frag);
            proof {
                assert(s.skip(p + 4) =~= bytes@.skip(j + 4));
                assert(frag_views(frags@) =~= fv0 + text_v.push(frag_view(frag)));
                assert(decode_log_spec(bytes@).0 =~= frag_views(frags@) + decode_log_spec(
                    bytes@.skip(j + 4),
                ).0);
            }
            i = j + 4;
        } else {
            // an incomplete frame or an invalid or truncated code point:
            // leave it for the next drain
            proof {
                assert(decode_log_spec(bytes@).0 =~= frag_views(frags@));
            }
            return (frags, j);
        }
    }
}

} // verus!
