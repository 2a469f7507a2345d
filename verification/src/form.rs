//! Parsing of form-encoded submission bodies.
//!
//! A body is a sequence of `&`-separated segments; each non-empty segment is
//! a `key=value` pair (a segment without `=` is a key with an empty value).
//! Keys and values are percent-decoded, with `+` standing for a space.
//! A submission is accepted exactly when it carries the `name` key once and
//! the `email` key once; any other key is ignored.

use vstd::prelude::*;

verus! {

// ---------------------------------------------------------------------------
// Percent-decoding
// ---------------------------------------------------------------------------

/// Whether `b` is an ASCII hexadecimal digit.
pub open spec fn is_hex_digit(b: u8) -> bool {
    (0x30 <= b && b <= 0x39) || (0x41 <= b && b <= 0x46) || (0x61 <= b && b <= 0x66)
}

/// The numeric value of an ASCII hexadecimal digit.
pub open spec fn hex_value(b: u8) -> u8 {
    if 0x30 <= b && b <= 0x39 {
        (b - 0x30) as u8
    } else if 0x41 <= b && b <= 0x46 {
        (b - 0x41 + 10) as u8
    } else {
        (b - 0x61 + 10) as u8
    }
}

/// Percent-decoding of a key or value: `%XY` with two hexadecimal digits
/// decodes to one byte, `+` decodes to a space, and every other byte (a `%`
/// not followed by two hexadecimal digits included) stands for itself.
pub open spec fn pct_decode(s: Seq<u8>) -> Seq<u8>
    decreases s.len(),
{
    if s.len() == 0 {
        Seq::empty()
    } else if s[0] == 0x25 && s.len() >= 3 && is_hex_digit(s[1]) && is_hex_digit(s[2]) {
        seq![(16 * hex_value(s[1]) + hex_value(s[2])) as u8] + pct_decode(s.skip(3))
    } else if s[0] == 0x2b {
        seq![0x20u8] + pct_decode(s.skip(1))
    } else {
        seq![s[0]] + pct_decode(s.skip(1))
    }
}

fn is_hex_digit_exec(b: u8) -> (r: bool)
    ensures
        r == is_hex_digit(b),
{
    (0x30 <= b && b <= 0x39) || (0x41 <= b && b <= 0x46) || (0x61 <= b && b <= 0x66)
}

fn hex_value_exec(b: u8) -> (r: u8)
    requires
        is_hex_digit(b),
    ensures
        r == hex_value(b),
        r <= 15,
{
    if 0x30 <= b && b <= 0x39 {
        b - 0x30
    } else if 0x41 <= b && b <= 0x46 {
        b - 0x41 + 10
    } else {
        b - 0x61 + 10
    }
}

/// Percent-decode `s`, as `pct_decode` describes.
pub fn percent_decode(s: &Vec<u8>) -> (r: Vec<u8>)
    ensures
        r@ == pct_decode(s@),
{
    let mut out: Vec<u8> = Vec::new();
    let mut i: usize = 0;
    proof {
        assert(s@.skip(0) =~= s@);
    }
    while i < s.len()
        invariant
            i <= s.len(),
            pct_decode(s@) == out@ + pct_decode(s@.skip(i as int)),
        decreases s.len() - i,
    {
        let ghost rest = s@.skip(i as int);
        let ghost prev = out@;
        assert(rest[0] == s@[i as int]);
        if s[i] == 0x25 && s.len() - i >= 3 && is_hex_digit_exec(s[i + 1]) && is_hex_digit_exec(
            s[i + 2],
        ) {
            assert(rest.len() >= 3 && rest[1] == s@[i + 1] && rest[2] == s@[i + 2]);
            let b = 16 * hex_value_exec(s[i + 1]) + hex_value_exec(s[i + 2]);
            out.push(b);
            i = i + 3;
            proof {
                assert(pct_decode(rest) == seq![b] + pct_decode(rest.skip(3)));
                assert(rest.skip(3) =~= s@.skip(i as int));
                assert(prev + (seq![b] + pct_decode(s@.skip(i as int))) =~= out@ + pct_decode(
                    s@.skip(i as int),
                ));
            }
        } else {
            let b = if s[i] == 0x2b {
                0x20u8
            } else {
                s[i]
            };
            out.push(b);
            i = i + 1;
            proof {
                assert(pct_decode(rest) == seq![b] + pct_decode(rest.skip(1)));
                assert(rest.skip(1) =~= s@.skip(i as int));
                assert(prev + (seq![b] + pct_decode(s@.skip(i as int))) =~= out@ + pct_decode(
                    s@.skip(i as int),
                ));
            }
        }
    }
    proof {
        assert(s@.skip(s@.len() as int) =~= Seq::<u8>::empty());
        assert(out@ + pct_decode(s@.skip(s@.len() as int)) =~= out@);
    }
    out
}

// ---------------------------------------------------------------------------
// Splitting a body into segments and a segment into key and value
// ---------------------------------------------------------------------------

/// The `&`-separated segments of a body; an empty body is one empty segment.
pub open spec fn segments(s: Seq<u8>) -> Seq<Seq<u8>>
    decreases s.len(),
{
    if s.len() == 0 {
        seq![Seq::<u8>::empty()]
    } else if s[0] == 0x26 {
        seq![Seq::<u8>::empty()] + segments(s.skip(1))
    } else {
        let rest = segments(s.skip(1));
        seq![seq![s[0]] + rest[0]] + rest.skip(1)
    }
}

proof fn lemma_segments_nonempty(s: Seq<u8>)
    ensures
        segments(s).len() >= 1,
    decreases s.len(),
{
    if s.len() != 0 {
        lemma_segments_nonempty(s.skip(1));
    }
}

/// The part of a segment before its first `=`, still percent-encoded.
pub open spec fn raw_key(seg: Seq<u8>) -> Seq<u8>
    decreases seg.len(),
{
    if seg.len() == 0 {
        Seq::empty()
    } else if seg[0] == 0x3d {
        Seq::empty()
    } else {
        seq![seg[0]] + raw_key(seg.skip(1))
    }
}

/// The part of a segment after its first `=` (empty when there is no `=`),
/// still percent-encoded.
pub open spec fn raw_value(seg: Seq<u8>) -> Seq<u8>
    decreases seg.len(),
{
    if seg.len() == 0 {
        Seq::empty()
    } else if seg[0] == 0x3d {
        seg.skip(1)
    } else {
        raw_value(seg.skip(1))
    }
}

/// Split `body` on `&`, as `segments` describes.
fn split_segments(body: &Vec<u8>) -> (r: Vec<Vec<u8>>)
    ensures
        r@.map_values(|v: Vec<u8>| v@) == segments(body@),
{
    let mut done: Vec<Vec<u8>> = Vec::new();
    let mut cur: Vec<u8> = Vec::new();
    let mut i: usize = 0;
    proof {
        assert(body@.skip(0) =~= body@);
        assert(done@.map_values(|v: Vec<u8>| v@) =~= Seq::<Seq<u8>>::empty());
        lemma_segments_nonempty(body@);
        assert(segments(body@) =~= Seq::<Seq<u8>>::empty() + (seq![
            Seq::<u8>::empty() + segments(body@)[0],
        ] + segments(body@).skip(1)));
    }
    while i < body.len()
        invariant
            i <= body.len(),
            segments(body@.skip(i as int)).len() >= 1,
            segments(body@) == done@.map_values(|v: Vec<u8>| v@) + (seq![
                cur@ + segments(body@.skip(i as int))[0],
            ] + segments(body@.skip(i as int)).skip(1)),
        decreases body.len() - i,
    {
        let ghost rest = body@.skip(i as int);
        let ghost prev_done = done@;
        let ghost prev_cur = cur@;
        assert(rest[0] == body@[i as int]);
        let b = body[i];
        if b == 0x26 {
            done.push(cur);
            cur = Vec::new();
            i = i + 1;
            proof {
                let ghost rest2 = body@.skip(i as int);
                assert(rest.skip(1) =~= rest2);
                lemma_segments_nonempty(rest2);
                assert(segments(rest) == seq![Seq::<u8>::empty()] + segments(rest2));
                assert(segments(rest)[0] =~= Seq::<u8>::empty());
                assert(prev_cur + segments(rest)[0] =~= prev_cur);
                assert(segments(rest).skip(1) =~= segments(rest2));
                assert(done@.map_values(|v: Vec<u8>| v@) =~= prev_done.map_values(
                    |v: Vec<u8>| v@,
                ).push(prev_cur));
                assert(segments(rest2) =~= seq![segments(rest2)[0]] + segments(rest2).skip(1));
                assert(prev_done.map_values(|v: Vec<u8>| v@) + (seq![prev_cur + segments(rest)[0]]
                    + segments(rest).skip(1)) =~= done@.map_values(|v: Vec<u8>| v@) + (seq![
                    cur@ + segments(rest2)[0],
                ] + segments(rest2).skip(1)));
            }
        } else {
            cur.push(b);
            i = i + 1;
            proof {
                let ghost rest2 = body@.skip(i as int);
                assert(rest.skip(1) =~= rest2);
                lemma_segments_nonempty(rest2);
                assert(segments(rest) == seq![seq![b] + segments(rest2)[0]] + segments(
                    rest2,
                ).skip(1));
                assert(segments(rest)[0] =~= seq![b] + segments(rest2)[0]);
                assert(prev_cur + segments(rest)[0] =~= cur@ + segments(rest2)[0]);
                assert(segments(rest).skip(1) =~= segments(rest2).skip(1));
                assert(prev_done.map_values(|v: Vec<u8>| v@) + (seq![prev_cur + segments(rest)[0]]
                    + segments(rest).skip(1)) =~= done@.map_values(|v: Vec<u8>| v@) + (seq![
                    cur@ + segments(rest2)[0],
                ] + segments(rest2).skip(1)));
            }
        }
    }
    proof {
        let ghost rest = body@.skip(body@.len() as int);
        assert(rest =~= Seq::<u8>::empty());
        assert(segments(rest) == seq![Seq::<u8>::empty()]);
        assert(cur@ + segments(rest)[0] =~= cur@);
        assert(segments(rest).skip(1) =~= Seq::<Seq<u8>>::empty());
    }
    let ghost final_done = done@;
    let ghost final_cur = cur@;
    done.push(cur);
    proof {
        assert(done@.map_values(|v: Vec<u8>| v@) =~= final_done.map_values(|v: Vec<u8>| v@).push(
            final_cur,
        ));
        assert(final_done.map_values(|v: Vec<u8>| v@).push(final_cur) =~= final_done.map_values(
            |v: Vec<u8>| v@,
        ) + (seq![final_cur] + Seq::<Seq<u8>>::empty()));
    }
    done
}

/// Split a segment at its first `=`, as `raw_key` and `raw_value` describe;
/// neither part is decoded yet.
fn key_value_of(seg: &Vec<u8>) -> (r: (Vec<u8>, Vec<u8>))
    ensures
        r.0@ == raw_key(seg@),
        r.1@ == raw_value(seg@),
{
    let mut key: Vec<u8> = Vec::new();
    let mut val: Vec<u8> = Vec::new();
    let mut seen_eq = false;
    let mut i: usize = 0;
    proof {
        assert(seg@.skip(0) =~= seg@);
    }
    while i < seg.len()
        invariant
            i <= seg.len(),
            !seen_eq ==> {
                &&& raw_key(seg@) == key@ + raw_key(seg@.skip(i as int))
                &&& raw_value(seg@) == raw_value(seg@.skip(i as int))
                &&& val@ == Seq::<u8>::empty()
            },
            seen_eq ==> {
                &&& raw_key(seg@) == key@
                &&& raw_value(seg@) == val@ + seg@.skip(i as int)
            },
        decreases seg.len() - i,
    {
        let ghost rest = seg@.skip(i as int);
        let ghost prev_key = key@;
        let ghost prev_val = val@;
        assert(rest[0] == seg@[i as int]);
        let b = seg[i];
        if !seen_eq && b == 0x3d {
            seen_eq = true;
            i = i + 1;
            proof {
                assert(rest.skip(1) =~= seg@.skip(i as int));
                assert(raw_key(rest) =~= Seq::<u8>::empty());
                assert(prev_key + raw_key(rest) =~= prev_key);
                assert(raw_value(rest) == rest.skip(1));
                assert(prev_val + seg@.skip(i as int) =~= seg@.skip(i as int));
            }
        } else if !seen_eq {
            key.push(b);
            i = i + 1;
            proof {
                assert(rest.skip(1) =~= seg@.skip(i as int));
                assert(raw_key(rest) == seq![b] + raw_key(seg@.skip(i as int)));
                assert(prev_key + raw_key(rest) =~= key@ + raw_key(seg@.skip(i as int)));
                assert(raw_value(rest) == raw_value(seg@.skip(i as int)));
            }
        } else {
            val.push(b);
            i = i + 1;
            proof {
                assert(rest.skip(1) =~= seg@.skip(i as int));
                assert(prev_val + rest =~= val@ + seg@.skip(i as int));
            }
        }
    }
    proof {
        let ghost rest = seg@.skip(seg@.len() as int);
        assert(rest =~= Seq::<u8>::empty());
        if !seen_eq {
            assert(key@ + raw_key(rest) =~= key@);
        } else {
            assert(val@ + rest =~= val@);
        }
    }
    (key, val)
}

// ---------------------------------------------------------------------------
// The decoded key/value pairs of a body, and field lookup
// ---------------------------------------------------------------------------

/// The decoded key/value pairs of a list of segments, in order; empty
/// segments carry no pair.
pub open spec fn pairs_from(segs: Seq<Seq<u8>>) -> Seq<(Seq<u8>, Seq<u8>)>
    decreases segs.len(),
{
    if segs.len() == 0 {
        Seq::empty()
    } else if segs[0].len() == 0 {
        pairs_from(segs.skip(1))
    } else {
        seq![(pct_decode(raw_key(segs[0])), pct_decode(raw_value(segs[0])))] + pairs_from(
            segs.skip(1),
        )
    }
}

/// The decoded key/value pairs of a body, in order.
pub open spec fn form_pairs(body: Seq<u8>) -> Seq<(Seq<u8>, Seq<u8>)> {
    pairs_from(segments(body))
}

/// How many pairs carry the key `key`.
pub open spec fn key_count(pairs: Seq<(Seq<u8>, Seq<u8>)>, key: Seq<u8>) -> nat
    decreases pairs.len(),
{
    if pairs.len() == 0 {
        0
    } else {
        (if pairs[0].0 == key {
            1nat
        } else {
            0nat
        }) + key_count(pairs.skip(1), key)
    }
}

/// The value of the first pair carrying the key `key` (empty when none does).
pub open spec fn first_value(pairs: Seq<(Seq<u8>, Seq<u8>)>, key: Seq<u8>) -> Seq<u8>
    decreases pairs.len(),
{
    if pairs.len() == 0 {
        Seq::empty()
    } else if pairs[0].0 == key {
        pairs[0].1
    } else {
        first_value(pairs.skip(1), key)
    }
}

/// The bytes of the required field key `name`.
pub open spec fn name_key() -> Seq<u8> {
    seq![0x6eu8, 0x61u8, 0x6du8, 0x65u8]
}

/// The bytes of the required field key `email`.
pub open spec fn email_key() -> Seq<u8> {
    seq![0x65u8, 0x6du8, 0x61u8, 0x69u8, 0x6cu8]
}

/// Whether a body is an acceptable submission: it carries the `name` key
/// exactly once and the `email` key exactly once.
pub open spec fn form_accepts(body: Seq<u8>) -> bool {
    key_count(form_pairs(body), name_key()) == 1 && key_count(form_pairs(body), email_key()) == 1
}

/// The decoded bytes of the submitted `name` value.
pub open spec fn form_name(body: Seq<u8>) -> Seq<u8> {
    first_value(form_pairs(body), name_key())
}

/// The decoded bytes of the submitted `email` value.
pub open spec fn form_email(body: Seq<u8>) -> Seq<u8> {
    first_value(form_pairs(body), email_key())
}

// ---------------------------------------------------------------------------
// Text of decoded bytes
// ---------------------------------------------------------------------------

/// The text that `String::from_utf8_lossy` reads out of `bytes`.
pub uninterp spec fn utf8_lossy_of(bytes: Seq<u8>) -> Seq<char>;

/// Whether every byte is ASCII.
pub open spec fn ascii_seq(bytes: Seq<u8>) -> bool {
    forall|i: int| 0 <= i < bytes.len() ==> bytes[i] < 0x80
}

/// The characters of a sequence of ASCII bytes.
pub open spec fn chars_of_ascii(bytes: Seq<u8>) -> Seq<char> {
    bytes.map_values(|b: u8| b as char)
}

/// Relies on `String::from_utf8_lossy`: the result is a function of the bytes
/// alone (invalid sequences become replacement characters), and ASCII bytes
/// decode to themselves.
#[verifier::external_body]
fn utf8_lossy(bytes: &Vec<u8>) -> (r: String)
    ensures
        r@ == utf8_lossy_of(bytes@),
        ascii_seq(bytes@) ==> r@ == chars_of_ascii(bytes@),
{
    String::from_utf8_lossy(bytes).into_owned()
}

// ---------------------------------------------------------------------------
// Parsing
// ---------------------------------------------------------------------------

/// A submitted name/email pair, the fields taken verbatim from the form.
pub struct FormData {
    pub name: String,
    pub email: String,
}

/// Why a submission was rejected before any business logic ran.
#[derive(Debug)]
pub enum FormError {
    /// A required field (`name` or `email`) is absent or appears twice.
    FieldMissingOrRepeated,
}

/// Compare two byte vectors.
pub(crate) fn bytes_eq(a: &Vec<u8>, b: &Vec<u8>) -> (r: bool)
    ensures
        r == (a@ == b@),
{
    if a.len() != b.len() {
        return false;
    }
    let mut i: usize = 0;
    while i < a.len()
        invariant
            i <= a.len(),
            a@.len() == b@.len(),
            forall|j: int| 0 <= j < i ==> a@[j] == b@[j],
        decreases a.len() - i,
    {
        if a[i] != b[i] {
            return false;
        }
        i = i + 1;
    }
    proof {
        assert(a@ =~= b@);
    }
    true
}

/// The decoded key/value pairs of a body, as `form_pairs` describes.
fn form_pairs_exec(body: &Vec<u8>) -> (r: Vec<(Vec<u8>, Vec<u8>)>)
    ensures
        r@.map_values(|p: (Vec<u8>, Vec<u8>)| (p.0@, p.1@)) == form_pairs(body@),
{
    let segs = split_segments(body);
    let ghost segs_view = segs@.map_values(|v: Vec<u8>| v@);
    let mut out: Vec<(Vec<u8>, Vec<u8>)> = Vec::new();
    let mut i: usize = 0;
    proof {
        assert(segs_view.skip(0) =~= segs_view);
        assert(out@.map_values(|p: (Vec<u8>, Vec<u8>)| (p.0@, p.1@)) =~= Seq::<(
            Seq<u8>,
            Seq<u8>,
        )>::empty());
    }
    while i < segs.len()
        invariant
            i <= segs.len(),
            segs_view == segs@.map_values(|v: Vec<u8>| v@),
            pairs_from(segs_view) == out@.map_values(|p: (Vec<u8>, Vec<u8>)| (p.0@, p.1@))
                + pairs_from(segs_view.skip(i as int)),
        decreases segs.len() - i,
    {
        let ghost rest = segs_view.skip(i as int);
        let ghost prev = out@.map_values(|p: (Vec<u8>, Vec<u8>)| (p.0@, p.1@));
        assert(rest[0] == segs_view[i as int] && segs_view[i as int] == segs@[i as int]@);
        if segs[i].len() > 0 {
            let (k, v) = key_value_of(&segs[i]);
            let dk = percent_decode(&k);
            let dv = percent_decode(&v);
            out.push((dk, dv));
            i = i + 1;
            proof {
                assert(rest.skip(1) =~= segs_view.skip(i as int));
                assert(pairs_from(rest) == seq![(pct_decode(raw_key(rest[0])), pct_decode(
                    raw_value(rest[0]),
                ))] + pairs_from(segs_view.skip(i as int)));
                assert(out@.map_values(|p: (Vec<u8>, Vec<u8>)| (p.0@, p.1@)) =~= prev.push(
                    (dk@, dv@),
                ));
                assert(prev + pairs_from(rest) =~= out@.map_values(
                    |p: (Vec<u8>, Vec<u8>)| (p.0@, p.1@),
                ) + pairs_from(segs_view.skip(i as int)));
            }
        } else {
            i = i + 1;
            proof {
                assert(rest.skip(1) =~= segs_view.skip(i as int));
                assert(pairs_from(rest) == pairs_from(segs_view.skip(i as int)));
            }
        }
    }
    proof {
        assert(segs_view.skip(segs_view.len() as int) =~= Seq::<Seq<u8>>::empty());
        assert(out@.map_values(|p: (Vec<u8>, Vec<u8>)| (p.0@, p.1@)) + pairs_from(
            segs_view.skip(segs_view.len() as int),
        ) =~= out@.map_values(|p: (Vec<u8>, Vec<u8>)| (p.0@, p.1@)));
    }
    out
}

/// Parse a form-encoded body into the submitted name and email.
///
/// The submission is accepted exactly when it carries the `name` field once
/// and the `email` field once; the parsed fields are the decoded values of
/// those pairs, read as text.
pub fn parse_form(body: &Vec<u8>) -> (r: Result<FormData, FormError>)
    ensures
        r is Ok <==> form_accepts(body@),
        r is Ok ==> r->Ok_0.name@ == utf8_lossy_of(form_name(body@)) && r->Ok_0.email@
            == utf8_lossy_of(form_email(body@)),
        r is Ok && ascii_seq(form_name(body@)) ==> r->Ok_0.name@ == chars_of_ascii(
            form_name(body@),
        ),
        r is Ok && ascii_seq(form_email(body@)) ==> r->Ok_0.email@ == chars_of_ascii(
            form_email(body@),
        ),
        r is Err ==> r->Err_0 == FormError::FieldMissingOrRepeated,
{
    let pairs = form_pairs_exec(body);
    let ghost pairs_view = pairs@.map_values(|p: (Vec<u8>, Vec<u8>)| (p.0@, p.1@));
    let kname: Vec<u8> = vec![0x6eu8, 0x61u8, 0x6du8, 0x65u8];
    let kemail: Vec<u8> = vec![0x65u8, 0x6du8, 0x61u8, 0x69u8, 0x6cu8];
    proof {
        assert(kname@ =~= name_key());
        assert(kemail@ =~= email_key());
    }
    let mut name_count: usize = 0;
    let mut email_count: usize = 0;
    let mut name_val: Vec<u8> = Vec::new();
    let mut email_val: Vec<u8> = Vec::new();
    let mut i: usize = 0;
    proof {
        assert(pairs_view.skip(0) =~= pairs_view);
    }
    while i < pairs.len()
        invariant
            i <= pairs.len(),
            pairs_view == pairs@.map_values(|p: (Vec<u8>, Vec<u8>)| (p.0@, p.1@)),
            kname@ == name_key(),
            kemail@ == email_key(),
            name_count <= i,
            email_count <= i,
            key_count(pairs_view, name_key()) == name_count + key_count(
                pairs_view.skip(i as int),
                name_key(),
            ),
            key_count(pairs_view, email_key()) == email_count + key_count(
                pairs_view.skip(i as int),
                email_key(),
            ),
            name_count == 0 ==> first_value(pairs_view, name_key()) == first_value(
                pairs_view.skip(i as int),
                name_key(),
            ),
            email_count == 0 ==> first_value(pairs_view, email_key()) == first_value(
                pairs_view.skip(i as int),
                email_key(),
            ),
            name_count > 0 ==> name_val@ == first_value(pairs_view, name_key()),
            email_count > 0 ==> email_val@ == first_value(pairs_view, email_key()),
        decreases pairs.len() - i,
    {
        let ghost rest = pairs_view.skip(i as int);
        assert(rest[0] == pairs_view[i as int] && pairs_view[i as int] == (
            pairs@[i as int].0@,
            pairs@[i as int].1@,
        ));
        let is_name = bytes_eq(&pairs[i].0, &kname);
        let is_email = bytes_eq(&pairs[i].0, &kemail);
        if is_name {
            if name_count == 0 {
                name_val = pairs[i].1.clone();
            }
            name_count = name_count + 1;
        }
        if is_email {
            if email_count == 0 {
                email_val = pairs[i].1.clone();
            }
            email_count = email_count + 1;
        }
        i = i + 1;
        proof {
            assert(rest.skip(1) =~= pairs_view.skip(i as int));
        }
    }
    proof {
        assert(pairs_view.skip(pairs_view.len() as int) =~= Seq::<(Seq<u8>, Seq<u8>)>::empty());
    }
    if name_count == 1 && email_count == 1 {
        let name = utf8_lossy(&name_val);
        let email = utf8_lossy(&email_val);
        Ok(FormData { name, email })
    } else {
        Err(FormError::FieldMissingOrRepeated)
    }
}

// ---------------------------------------------------------------------------
// Laws of acceptance
// ---------------------------------------------------------------------------

/// A submission that does not carry `name`, does not carry `email`, or
/// carries either more than once, is never accepted: no record is ever built
/// from it.
pub proof fn lemma_missing_field_rejected(body: Seq<u8>)
    requires
        key_count(form_pairs(body), name_key()) != 1 || key_count(form_pairs(body), email_key())
            != 1,
    ensures
        !form_accepts(body),
{
}

/// Decoding leaves a sequence without `%` and `+` as it is.
proof fn lemma_pct_decode_plain(s: Seq<u8>)
    requires
        forall|i: int| 0 <= i < s.len() ==> s[i] != 0x25 && s[i] != 0x2b,
    ensures
        pct_decode(s) == s,
    decreases s.len(),
{
    if s.len() > 0 {
        lemma_pct_decode_plain(s.skip(1));
        assert(seq![s[0]] + s.skip(1) =~= s);
    }
}

/// A sequence without `&` is one single segment.
proof fn lemma_no_amp_single_segment(s: Seq<u8>)
    requires
        forall|i: int| 0 <= i < s.len() ==> s[i] != 0x26,
    ensures
        segments(s) == seq![s],
    decreases s.len(),
{
    if s.len() > 0 {
        lemma_no_amp_single_segment(s.skip(1));
        let rest = segments(s.skip(1));
        assert(rest == seq![s.skip(1)]);
        assert(segments(s) == seq![seq![s[0]] + rest[0]] + rest.skip(1));
        assert(seq![s[0]] + s.skip(1) =~= s);
        assert(rest.skip(1) =~= Seq::<Seq<u8>>::empty());
        assert(segments(s) =~~= seq![s]);
    } else {
        assert(s =~= Seq::<u8>::empty());
        assert(segments(s) =~~= seq![s]);
    }
}

/// Splitting at the first `&`: a `&`-free prefix is the first segment.
proof fn lemma_segments_split(s1: Seq<u8>, s2: Seq<u8>)
    requires
        forall|i: int| 0 <= i < s1.len() ==> s1[i] != 0x26,
    ensures
        segments(s1 + seq![0x26u8] + s2) == seq![s1] + segments(s2),
    decreases s1.len(),
{
    let whole = s1 + seq![0x26u8] + s2;
    if s1.len() == 0 {
        assert(whole[0] == 0x26);
        assert(whole.skip(1) =~= s2);
        assert(s1 =~= Seq::<u8>::empty());
        assert(segments(whole) == seq![Seq::<u8>::empty()] + segments(whole.skip(1)));
        assert(segments(whole) =~~= seq![s1] + segments(s2));
    } else {
        lemma_segments_split(s1.skip(1), s2);
        assert(whole[0] == s1[0] && s1[0] != 0x26);
        assert(whole.skip(1) =~= s1.skip(1) + seq![0x26u8] + s2);
        let rest = segments(whole.skip(1));
        assert(rest == seq![s1.skip(1)] + segments(s2));
        lemma_segments_nonempty(s2);
        assert(segments(whole) == seq![seq![whole[0]] + rest[0]] + rest.skip(1));
        assert(seq![whole[0]] + rest[0] =~= s1);
        assert(rest.skip(1) =~= segments(s2));
        assert(segments(whole) =~~= seq![s1] + segments(s2));
    }
}

/// Splitting a segment built as `<key>=<value>`, the key free of `=`.
proof fn lemma_key_value_of_built(k: Seq<u8>, v: Seq<u8>)
    requires
        forall|i: int| 0 <= i < k.len() ==> k[i] != 0x3d,
    ensures
        raw_key(k + seq![0x3du8] + v) == k,
        raw_value(k + seq![0x3du8] + v) == v,
    decreases k.len(),
{
    let whole = k + seq![0x3du8] + v;
    if k.len() == 0 {
        assert(whole[0] == 0x3d);
        assert(whole.skip(1) =~= v);
        assert(raw_key(whole) =~= k);
    } else {
        lemma_key_value_of_built(k.skip(1), v);
        assert(whole[0] == k[0] && k[0] != 0x3d);
        assert(whole.skip(1) =~= k.skip(1) + seq![0x3du8] + v);
        assert(seq![whole[0]] + raw_key(whole.skip(1)) =~= k);
    }
}

/// The canonical body for a name value `n` and an email value `e`:
/// `name=<n>&email=<e>`.
pub open spec fn canonical_body(n: Seq<u8>, e: Seq<u8>) -> Seq<u8> {
    name_key() + seq![0x3du8] + n + seq![0x26u8] + email_key() + seq![0x3du8] + e
}

/// Any name and email values free of the reserved bytes `&`, `%` and `+`
/// make a valid submission: the body `name=<n>&email=<e>` is accepted, and
/// parses to exactly those values.
pub proof fn lemma_canonical_body_accepted(n: Seq<u8>, e: Seq<u8>)
    requires
        forall|i: int| 0 <= i < n.len() ==> n[i] != 0x26 && n[i] != 0x25 && n[i] != 0x2b,
        forall|i: int| 0 <= i < e.len() ==> e[i] != 0x26 && e[i] != 0x25 && e[i] != 0x2b,
    ensures
        form_accepts(canonical_body(n, e)),
        form_name(canonical_body(n, e)) == n,
        form_email(canonical_body(n, e)) == e,
{
    let body = canonical_body(n, e);
    let s1 = name_key() + seq![0x3du8] + n;
    let s2 = email_key() + seq![0x3du8] + e;
    assert(body =~= s1 + seq![0x26u8] + s2);
    assert(forall|i: int| 0 <= i < s1.len() ==> s1[i] != 0x26);
    assert(forall|i: int| 0 <= i < s2.len() ==> s2[i] != 0x26);
    lemma_segments_split(s1, s2);
    lemma_no_amp_single_segment(s2);
    assert(segments(body) == seq![s1] + seq![s2]);
    lemma_key_value_of_built(name_key(), n);
    lemma_key_value_of_built(email_key(), e);
    lemma_pct_decode_plain(name_key());
    lemma_pct_decode_plain(email_key());
    lemma_pct_decode_plain(n);
    lemma_pct_decode_plain(e);
    let pairs = form_pairs(body);
    let segs = seq![s1] + seq![s2];
    assert(s1.len() > 0 && s2.len() > 0);
    assert(segs[0] == s1 && segs.len() == 2);
    assert(segs.skip(1) =~= seq![s2]);
    assert(seq![s2].skip(1) =~= Seq::<Seq<u8>>::empty());
    assert(pairs_from(seq![s2]) == seq![(pct_decode(raw_key(s2)), pct_decode(raw_value(s2)))]
        + pairs_from(seq![s2].skip(1)));
    assert(pairs_from(segs) == seq![(pct_decode(raw_key(s1)), pct_decode(raw_value(s1)))]
        + pairs_from(segs.skip(1)));
    assert(pairs == pairs_from(segs));
    assert(pairs =~~= seq![(name_key(), n), (email_key(), e)]);
    assert(name_key() != email_key()) by {
        assert(name_key().len() != email_key().len());
    }
    let empty_pairs = Seq::<(Seq<u8>, Seq<u8>)>::empty();
    let tail = seq![(email_key(), e)];
    assert(key_count(empty_pairs, name_key()) == 0);
    assert(key_count(empty_pairs, email_key()) == 0);
    assert(tail.skip(1) =~= empty_pairs);
    assert(key_count(tail, name_key()) == key_count(empty_pairs, name_key()));
    assert(key_count(tail, email_key()) == 1 + key_count(empty_pairs, email_key()));
    assert(pairs.skip(1) =~= tail);
    assert(key_count(pairs, name_key()) == 1 + key_count(tail, name_key()));
    assert(key_count(pairs, email_key()) == key_count(tail, email_key()));
    assert(first_value(pairs, name_key()) == n);
    assert(first_value(pairs, email_key()) == first_value(tail, email_key()));
    assert(first_value(tail, email_key()) == e);
}

/// A submission that carries `name` exactly once and `email` exactly once is
/// accepted, and the parsed fields are exactly those pairs' decoded values.
pub proof fn lemma_present_fields_accepted(body: Seq<u8>)
    requires
        key_count(form_pairs(body), name_key()) == 1,
        key_count(form_pairs(body), email_key()) == 1,
    ensures
        form_accepts(body),
        form_name(body) == first_value(form_pairs(body), name_key()),
        form_email(body) == first_value(form_pairs(body), email_key()),
{
}

} // verus!
