//! The byte convention guests of this crate use for structured values in
//! the key/value store.
//!
//! The store holds opaque bytes; these functions frame strings and lists
//! of strings as length-prefixed little-endian words: a `u32` is four
//! little-endian bytes, a string is its character count followed by one
//! word per character, and a list is its element count followed by the
//! elements.

use vstd::prelude::*;

verus! {

use vstd::utf8::is_scalar;

/// A `u32` as four little-endian bytes.
pub open spec fn enc_u32(x: u32) -> Seq<u8> {
    seq![
        (x & 0xff) as u8,
        ((x >> 8) & 0xff) as u8,
        ((x >> 16) & 0xff) as u8,
        ((x >> 24) & 0xff) as u8,
    ]
}

/// The `u32` at offset `i`, when four bytes are there.
pub open spec fn dec_u32(b: Seq<u8>, i: int) -> Option<u32> {
    if 0 <= i && i + 4 <= b.len() {
        Some(
            (b[i] as u32) | (b[i + 1] as u32) << 8 | (b[i + 2] as u32) << 16 | (b[i + 3] as u32)
                << 24,
        )
    } else {
        None
    }
}

/// The characters of a string, one word each.
pub open spec fn enc_chars(s: Seq<char>) -> Seq<u8>
    decreases s.len(),
{
    if s.len() == 0 {
        Seq::empty()
    } else {
        enc_u32(s[0] as u32) + enc_chars(s.drop_first())
    }
}

/// A string: its character count, then its characters.
pub open spec fn enc_str(s: Seq<char>) -> Seq<u8>
    recommends
        s.len() <= u32::MAX,
{
    enc_u32(s.len() as u32) + enc_chars(s)
}

/// A list of strings: its count, then the strings.
pub open spec fn enc_str_list_items(ss: Seq<Seq<char>>) -> Seq<u8>
    decreases ss.len(),
{
    if ss.len() == 0 {
        Seq::empty()
    } else {
        enc_str(ss[0]) + enc_str_list_items(ss.drop_first())
    }
}

/// A list of strings: its count, then the strings.
pub open spec fn enc_str_list(ss: Seq<Seq<char>>) -> Seq<u8>
    recommends
        ss.len() <= u32::MAX,
{
    enc_u32(ss.len() as u32) + enc_str_list_items(ss)
}

/// Decodes `n` characters from offset `i`: the characters and the offset
/// after them.
pub open spec fn dec_chars(b: Seq<u8>, i: int, n: int) -> Option<(Seq<char>, int)>
    decreases n,
{
    if n <= 0 {
        Some((Seq::empty(), i))
    } else {
        match dec_u32(b, i) {
            None => None,
            Some(c) => if is_scalar(c) {
                match dec_chars(b, i + 4, n - 1) {
                    None => None,
                    Some(rest) => Some((seq![c as char] + rest.0, rest.1)),
                }
            } else {
                None
            },
        }
    }
}

/// Decodes one string from offset `i`: the string and the offset after it.
pub open spec fn dec_str(b: Seq<u8>, i: int) -> Option<(Seq<char>, int)> {
    match dec_u32(b, i) {
        None => None,
        Some(n) => dec_chars(b, i + 4, n as int),
    }
}

/// Decodes `n` strings from offset `i`.
pub open spec fn dec_str_items(b: Seq<u8>, i: int, n: int) -> Option<(Seq<Seq<char>>, int)>
    decreases n,
{
    if n <= 0 {
        Some((Seq::empty(), i))
    } else {
        match dec_str(b, i) {
            None => None,
            Some(first) => match dec_str_items(b, first.1, n - 1) {
                None => None,
                Some(rest) => Some((seq![first.0] + rest.0, rest.1)),
            },
        }
    }
}

/// Decodes a whole byte string as a list of strings; the bytes must be
/// consumed exactly.
pub open spec fn dec_str_list(b: Seq<u8>) -> Option<Seq<Seq<char>>> {
    match dec_u32(b, 0) {
        None => None,
        Some(n) => match dec_str_items(b, 4, n as int) {
            None => None,
            Some(r) => if r.1 == b.len() {
                Some(r.0)
            } else {
                None
            },
        },
    }
}

/// Appends the four little-endian bytes of `x`.
pub fn push_u32(out: &mut Vec<u8>, x: u32)
    ensures
        final(out)@ == old(out)@ + enc_u32(x),
{
    assert(x & 0xff < 256 && (x >> 8) & 0xff < 256 && (x >> 16) & 0xff < 256 && (x >> 24) & 0xff
        < 256) by (bit_vector);
    out.push((x & 0xff) as u8);
    out.push(((x >> 8) & 0xff) as u8);
    out.push(((x >> 16) & 0xff) as u8);
    out.push(((x >> 24) & 0xff) as u8);
    proof {
        assert(out@ =~= old(out)@ + enc_u32(x));
    }
}

/// Appends the encoding of a string.
pub fn push_str_enc(out: &mut Vec<u8>, s: &str)
    requires
        s@.len() <= u32::MAX,
    ensures
        final(out)@ == old(out)@ + enc_str(s@),
{
    let chars = crate::textutil::chars_of(s);
    let n = chars.len();
    proof {
        assert(n as u32 as int == n as int);
    }
    push_u32(out, n as u32);
    let mut i: usize = 0;
    while i < n
        invariant
            i <= n,
            n == chars@.len(),
            out@ == old(out)@ + enc_u32(n as u32) + enc_chars(chars@.take(i as int)),
        decreases n - i,
    {
        let ghost before = out@;
        let c = chars[i];
        push_u32(out, c as u32);
        i = i + 1;
        proof {
            lemma_enc_chars_snoc(chars@.take(i as int));
            assert(chars@.take(i as int).drop_last() =~= chars@.take(i - 1));
            assert(chars@.take(i as int).last() == chars@[i - 1]);
            assert(out@ =~= old(out)@ + enc_u32(n as u32) + enc_chars(chars@.take(i as int)));
        }
    }
    proof {
        assert(chars@.take(n as int) =~= chars@);
        assert(out@ =~= old(out)@ + enc_str(s@));
    }
}

/// The encoding of a string consumed from the back: the front characters
/// then the last one.
proof fn lemma_enc_chars_snoc(s: Seq<char>)
    requires
        s.len() > 0,
    ensures
        enc_chars(s) == enc_chars(s.drop_last()) + enc_u32(s.last() as u32),
    decreases s.len(),
{
    if s.len() == 1 {
        assert(s.drop_first() =~= Seq::<char>::empty());
        assert(s.drop_last() =~= Seq::<char>::empty());
        assert(enc_chars(s) =~= enc_chars(s.drop_last()) + enc_u32(s.last() as u32));
    } else {
        lemma_enc_chars_snoc(s.drop_first());
        assert(s.drop_first().drop_last() =~= s.drop_last().drop_first());
        assert(s.drop_last()[0] == s[0]);
        assert(s.drop_first().last() == s.last());
        assert(enc_chars(s) =~= enc_chars(s.drop_last()) + enc_u32(s.last() as u32));
    }
}

/// Relies on `char::from_u32`: yields a character exactly for Unicode
/// scalar values, and the character casts back to the given value.
#[verifier::external_body]
fn char_from_u32(x: u32) -> (r: Option<char>)
    ensures
        r is Some <==> is_scalar(x),
        r is Some ==> r->0 as u32 == x,
{
    char::from_u32(x)
}

/// Reads the `u32` at offset `i`.
pub fn read_u32(b: &Vec<u8>, i: usize) -> (r: Option<u32>)
    ensures
        r == dec_u32(b@, i as int),
{
    if i < b.len() && b.len() - i >= 4 {
        Some(
            (b[i] as u32) | ((b[i + 1] as u32) << 8) | ((b[i + 2] as u32) << 16) | ((b[i
                + 3] as u32) << 24),
        )
    } else {
        None
    }
}

/// Decodes `n` characters from offset `i`, mirroring [`dec_chars`].
fn read_chars(b: &Vec<u8>, i: usize, n: u32) -> (r: Option<(Vec<char>, usize)>)
    ensures
        match r {
            Some(p) => dec_chars(b@, i as int, n as int) == Some((p.0@, p.1 as int)),
            None => dec_chars(b@, i as int, n as int) is None,
        },
    decreases n,
{
    if n == 0 {
        return Some((Vec::new(), i));
    }
    let word = match read_u32(b, i) {
        Some(w) => w,
        None => {
            return None;
        },
    };
    let blen = b.len();
    proof {
        assert(i + 4 <= blen);
    }
    let c = match char_from_u32(word) {
        Some(c) => c,
        None => {
            return None;
        },
    };
    proof {
        vstd::utf8::char_u32_cast(c, word);
    }
    let rest = match read_chars(b, i + 4, n - 1) {
        Some(r) => r,
        None => {
            return None;
        },
    };
    let (mut tail, end) = rest;
    let mut out: Vec<char> = Vec::new();
    out.push(c);
    out.append(&mut tail);
    proof {
        let pair = dec_chars(b@, i as int + 4, n as int - 1)->0;
        assert(out@ =~= seq![c] + pair.0);
    }
    Some((out, end))
}

/// Decodes one string from offset `i`, mirroring [`dec_str`].
fn read_str_enc(b: &Vec<u8>, i: usize) -> (r: Option<(String, usize)>)
    ensures
        match r {
            Some(p) => dec_str(b@, i as int) == Some((p.0@, p.1 as int)),
            None => dec_str(b@, i as int) is None,
        },
{
    let n = match read_u32(b, i) {
        Some(w) => w,
        None => {
            return None;
        },
    };
    let blen = b.len();
    proof {
        assert(i + 4 <= blen);
    }
    match read_chars(b, i + 4, n) {
        Some(p) => {
            let (chars, end) = p;
            Some((crate::textutil::string_of_chars(chars.as_slice()), end))
        },
        None => None,
    }
}

/// Encodes a list of strings under this crate's convention.
pub fn encode_str_list(ss: &Vec<String>) -> (r: Vec<u8>)
    requires
        ss@.len() <= u32::MAX,
        forall|k: int| 0 <= k < ss@.len() ==> (#[trigger] ss@[k])@.len() <= u32::MAX,
    ensures
        r@ == enc_str_list(ss@.map_values(|s: String| s@)),
{
    let ghost views = ss@.map_values(|s: String| s@);
    let mut out: Vec<u8> = Vec::new();
    let n = ss.len();
    push_u32(&mut out, n as u32);
    let mut i: usize = 0;
    while i < n
        invariant
            i <= n,
            n == views.len(),
            n <= u32::MAX,
            views == ss@.map_values(|s: String| s@),
            forall|k: int| 0 <= k < n ==> (#[trigger] ss@[k])@.len() <= u32::MAX,
            out@ == enc_u32(n as u32) + enc_str_list_items(views.take(i as int)),
        decreases n - i,
    {
        proof {
            assert(views[i as int] == ss@[i as int]@);
        }
        push_str_enc(&mut out, ss[i].as_str());
        i = i + 1;
        proof {
            lemma_enc_items_snoc(views.take(i as int));
            assert(views.take(i as int).drop_last() =~= views.take(i - 1));
            assert(views.take(i as int).last() == views[i - 1]);
            assert(out@ =~= enc_u32(n as u32) + enc_str_list_items(views.take(i as int)));
        }
    }
    proof {
        assert(views.take(n as int) =~= views);
        assert(out@ =~= enc_str_list(views));
    }
    out
}

/// The encoding of a string list consumed from the back.
proof fn lemma_enc_items_snoc(ss: Seq<Seq<char>>)
    requires
        ss.len() > 0,
    ensures
        enc_str_list_items(ss) == enc_str_list_items(ss.drop_last()) + enc_str(ss.last()),
    decreases ss.len(),
{
    if ss.len() == 1 {
        assert(ss.drop_first() =~= Seq::<Seq<char>>::empty());
        assert(ss.drop_last() =~= Seq::<Seq<char>>::empty());
        assert(enc_str_list_items(ss) =~= enc_str_list_items(ss.drop_last()) + enc_str(ss.last()));
    } else {
        lemma_enc_items_snoc(ss.drop_first());
        assert(ss.drop_first().drop_last() =~= ss.drop_last().drop_first());
        assert(ss.drop_last()[0] == ss[0]);
        assert(ss.drop_first().last() == ss.last());
        assert(enc_str_list_items(ss) =~= enc_str_list_items(ss.drop_last()) + enc_str(ss.last()));
    }
}

/// Decodes `n` strings from offset `i`, mirroring [`dec_str_items`].
fn read_str_items(b: &Vec<u8>, i: usize, n: u32) -> (r: Option<(Vec<String>, usize)>)
    ensures
        match r {
            Some(p) => dec_str_items(b@, i as int, n as int) == Some(
                (p.0@.map_values(|s: String| s@), p.1 as int),
            ),
            None => dec_str_items(b@, i as int, n as int) is None,
        },
    decreases n,
{
    if n == 0 {
        let out: Vec<String> = Vec::new();
        proof {
            assert(out@.map_values(|s: String| s@) =~= Seq::<Seq<char>>::empty());
        }
        return Some((out, i));
    }
    let first = match read_str_enc(b, i) {
        Some(p) => p,
        None => {
            return None;
        },
    };
    let rest = match read_str_items(b, first.1, n - 1) {
        Some(p) => p,
        None => {
            return None;
        },
    };
    let (mut tail, end) = rest;
    let ghost first_view = first.0@;
    let ghost tail_views = tail@.map_values(|s: String| s@);
    let mut out: Vec<String> = Vec::new();
    out.push(first.0);
    out.append(&mut tail);
    proof {
        assert(out@.map_values(|s: String| s@) =~= seq![first_view] + tail_views);
    }
    Some((out, end))
}

/// Decodes a whole byte string as a list of strings; fails unless the
/// bytes are consumed exactly.
pub fn decode_str_list(b: &Vec<u8>) -> (r: Option<Vec<String>>)
    ensures
        match r {
            Some(ss) => dec_str_list(b@) == Some(ss@.map_values(|s: String| s@)),
            None => dec_str_list(b@) is None,
        },
{
    let n = match read_u32(b, 0) {
        Some(w) => w,
        None => {
            return None;
        },
    };
    match read_str_items(b, 4, n) {
        Some(p) => {
            if p.1 == b.len() {
                Some(p.0)
            } else {
                None
            }
        },
        None => None,
    }
}


/// The encoding of a string of `n` characters takes `4 * n` bytes.
pub proof fn lemma_enc_chars_len(s: Seq<char>)
    ensures
        enc_chars(s).len() == 4 * s.len(),
    decreases s.len(),
{
    if s.len() > 0 {
        lemma_enc_chars_len(s.drop_first());
    }
}

proof fn lemma_subrange_shift(b: Seq<u8>, i: int, lo: int, hi: int, e: Seq<u8>)
    requires
        0 <= i,
        0 <= lo <= hi <= e.len(),
        i + e.len() <= b.len(),
        b.subrange(i, i + e.len() as int) == e,
    ensures
        b.subrange(i + lo, i + hi) == e.subrange(lo, hi),
{
    assert forall|k: int| 0 <= k < hi - lo implies b.subrange(i + lo, i + hi)[k] == e.subrange(
        lo,
        hi,
    )[k] by {
        assert(b.subrange(i, i + e.len() as int)[lo + k] == b[i + lo + k]);
    }
    assert(b.subrange(i + lo, i + hi) =~= e.subrange(lo, hi));
}

proof fn lemma_dec_u32_at(b: Seq<u8>, i: int, x: u32)
    requires
        0 <= i,
        i + 4 <= b.len(),
        b.subrange(i, i + 4) == enc_u32(x),
    ensures
        dec_u32(b, i) == Some(x),
{
    assert(b[i] == enc_u32(x)[0] && b[i + 1] == enc_u32(x)[1] && b[i + 2] == enc_u32(x)[2] && b[i
        + 3] == enc_u32(x)[3]) by {
        assert(b.subrange(i, i + 4)[0] == b[i]);
        assert(b.subrange(i, i + 4)[1] == b[i + 1]);
        assert(b.subrange(i, i + 4)[2] == b[i + 2]);
        assert(b.subrange(i, i + 4)[3] == b[i + 3]);
    }
    assert(((x & 0xff) as u8) as u32 | ((((x >> 8) & 0xff) as u8) as u32) << 8 | ((((x >> 16)
        & 0xff) as u8) as u32) << 16 | ((((x >> 24) & 0xff) as u8) as u32) << 24 == x)
        by (bit_vector);
}

proof fn lemma_dec_chars_at(b: Seq<u8>, i: int, s: Seq<char>)
    requires
        0 <= i,
        i + 4 * s.len() <= b.len(),
        b.subrange(i, i + 4 * s.len() as int) == enc_chars(s),
    ensures
        dec_chars(b, i, s.len() as int) == Some((s, i + 4 * s.len() as int)),
    decreases s.len(),
{
    broadcast use vstd::utf8::char_is_scalar;

    lemma_enc_chars_len(s);
    if s.len() == 0 {
        assert(s =~= Seq::<char>::empty());
    } else {
        let head = s[0] as u32;
        let rest = s.drop_first();
        lemma_enc_chars_len(rest);
        let whole = enc_chars(s);
        lemma_subrange_shift(b, i, 0, 4, whole);
        assert(whole.subrange(0, 4) =~= enc_u32(head));
        lemma_dec_u32_at(b, i, head);
        vstd::utf8::char_u32_cast(s[0], head);
        lemma_subrange_shift(b, i, 4, whole.len() as int, whole);
        assert(whole.subrange(4, whole.len() as int) =~= enc_chars(rest));
        assert(b.subrange(i + 4, i + 4 + 4 * rest.len() as int) == enc_chars(rest));
        lemma_dec_chars_at(b, i + 4, rest);
        assert(seq![(head as char)] + rest =~= s);
    }
}

proof fn lemma_dec_str_at(b: Seq<u8>, i: int, s: Seq<char>)
    requires
        0 <= i,
        s.len() <= u32::MAX,
        i + 4 + 4 * s.len() <= b.len(),
        b.subrange(i, i + 4 + 4 * s.len() as int) == enc_str(s),
    ensures
        dec_str(b, i) == Some((s, i + 4 + 4 * s.len() as int)),
{
    lemma_enc_chars_len(s);
    let count = s.len() as u32;
    let whole = enc_str(s);
    lemma_subrange_shift(b, i, 0, 4, whole);
    assert(whole.subrange(0, 4) =~= enc_u32(count));
    lemma_dec_u32_at(b, i, count);
    lemma_subrange_shift(b, i, 4, whole.len() as int, whole);
    assert(whole.subrange(4, whole.len() as int) =~= enc_chars(s));
    assert(b.subrange(i + 4, i + 4 + 4 * s.len() as int) == enc_chars(s));
    lemma_dec_chars_at(b, i + 4, s);
}

proof fn lemma_dec_items_at(b: Seq<u8>, i: int, ss: Seq<Seq<char>>)
    requires
        0 <= i,
        forall|k: int| 0 <= k < ss.len() ==> (#[trigger] ss[k]).len() <= u32::MAX,
        i + enc_str_list_items(ss).len() <= b.len(),
        b.subrange(i, i + enc_str_list_items(ss).len() as int) == enc_str_list_items(ss),
    ensures
        dec_str_items(b, i, ss.len() as int) == Some((ss, i + enc_str_list_items(ss).len() as int)),
    decreases ss.len(),
{
    if ss.len() == 0 {
        assert(ss =~= Seq::<Seq<char>>::empty());
    } else {
        let head = ss[0];
        lemma_enc_chars_len(head);
        let head_len = 4 + 4 * head.len() as int;
        let whole = enc_str_list_items(ss);
        lemma_subrange_shift(b, i, 0, head_len, whole);
        assert(whole.subrange(0, head_len) =~= enc_str(head));
        lemma_dec_str_at(b, i, head);
        let rest = ss.drop_first();
        lemma_subrange_shift(b, i, head_len, whole.len() as int, whole);
        assert(whole.subrange(head_len, whole.len() as int) =~= enc_str_list_items(rest));
        assert(b.subrange(i + head_len, i + head_len + enc_str_list_items(rest).len() as int)
            == enc_str_list_items(rest));
        lemma_dec_items_at(b, i + head_len, rest);
        assert(seq![head] + rest =~= ss);
    }
}

/// Law: the string-list convention is lossless. Decoding the encoding of
/// any list of strings that fits the format yields the list back.
pub proof fn lemma_str_list_roundtrip(ss: Seq<Seq<char>>)
    requires
        ss.len() <= u32::MAX,
        forall|k: int| 0 <= k < ss.len() ==> (#[trigger] ss[k]).len() <= u32::MAX,
    ensures
        dec_str_list(enc_str_list(ss)) == Some(ss),
{
    let b = enc_str_list(ss);
    let count = ss.len() as u32;
    assert(b.subrange(0, 4) =~= enc_u32(count));
    lemma_dec_u32_at(b, 0, count);
    assert(b.subrange(4, 4 + enc_str_list_items(ss).len() as int) =~= enc_str_list_items(ss));
    lemma_dec_items_at(b, 4, ss);
    assert(4 + enc_str_list_items(ss).len() == b.len());
}

} // verus!
