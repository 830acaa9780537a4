//! Decoding and validation of `application/x-www-form-urlencoded`
//! subscription bodies.
//!
//! A body is a `&`-separated list of segments; each segment is split at its
//! first `=` into a key and a value, and both halves are percent-decoded
//! (`%XY` becomes the byte `0xXY`, `+` becomes a space). A submission must
//! carry exactly one `name` key and exactly one `email` key; other keys are
//! ignored and empty segments are skipped. The decoded values must be
//! non-empty UTF-8, and the email must carry an `@` at an interior
//! position. Every failure of these rules is answered with HTTP 400 before
//! anything is persisted.
use vstd::prelude::*;
use vstd::utf8::{decode_utf8, valid_utf8};

verus! {

/// True for the ASCII bytes `0`-`9`, `A`-`F` and `a`-`f`.
pub open spec fn is_hex_digit(b: u8) -> bool {
    (48 <= b <= 57) || (65 <= b <= 70) || (97 <= b <= 102)
}

/// Numeric value of a hexadecimal digit byte.
pub open spec fn hex_digit_value(b: u8) -> u8
    recommends
        is_hex_digit(b),
{
    if 48 <= b <= 57 {
        (b - 48) as u8
    } else if 65 <= b <= 70 {
        (b - 65 + 10) as u8
    } else {
        (b - 97 + 10) as u8
    }
}

/// Percent-decoding of one key or value: `%XY` yields the byte `0xXY`,
/// `+` yields a space, every other byte stands for itself. A `%` that is
/// not followed by two hexadecimal digits makes the whole input invalid.
pub open spec fn percent_decoded(s: Seq<u8>) -> Option<Seq<u8>>
    decreases s.len(),
{
    if s.len() == 0 {
        Some(Seq::<u8>::empty())
    } else if s[0] == 37 {  // '%'
        if s.len() >= 3 && is_hex_digit(s[1]) && is_hex_digit(s[2]) {
            match percent_decoded(s.skip(3)) {
                Some(t) => Some(
                    seq![(hex_digit_value(s[1]) * 16 + hex_digit_value(s[2])) as u8] + t,
                ),
                None => None,
            }
        } else {
            None
        }
    } else if s[0] == 43 {  // '+'
        match percent_decoded(s.skip(1)) {
            Some(t) => Some(seq![32u8] + t),
            None => None,
        }
    } else {
        match percent_decoded(s.skip(1)) {
            Some(t) => Some(seq![s[0]] + t),
            None => None,
        }
    }
}

/// Prefixes an already-decoded run onto the decoding of the rest.
pub open spec fn prepend_decoded(prefix: Seq<u8>, rest: Option<Seq<u8>>) -> Option<Seq<u8>> {
    match rest {
        Some(t) => Some(prefix + t),
        None => None,
    }
}

fn hex_val(b: u8) -> (r: Option<u8>)
    ensures
        r is Some <==> is_hex_digit(b),
        r matches Some(v) ==> v == hex_digit_value(b) && v < 16,
{
    if 48 <= b && b <= 57 {
        Some(b - 48)
    } else if 65 <= b && b <= 70 {
        Some(b - 65 + 10)
    } else if 97 <= b && b <= 102 {
        Some(b - 97 + 10)
    } else {
        None
    }
}

/// Percent-decodes one key or value, as [`percent_decoded`] describes.
pub fn percent_decode(s: &Vec<u8>) -> (r: Option<Vec<u8>>)
    ensures
        r matches Some(v) ==> percent_decoded(s@) == Some(v@),
        r is None ==> percent_decoded(s@) is None,
{
    let mut out: Vec<u8> = Vec::new();
    let mut i: usize = 0;
    proof {
        assert(s@.skip(0) =~= s@);
    }
    while i < s.len()
        invariant
            i <= s.len(),
            percent_decoded(s@) == prepend_decoded(out@, percent_decoded(s@.skip(i as int))),
        decreases s.len() - i,
    {
        let ghost tail = s@.skip(i as int);
        let b = s[i];
        if b == 37 {  // '%'
            if s.len() - i >= 3 {
                let h1 = hex_val(s[i + 1]);
                let h2 = hex_val(s[i + 2]);
                match (h1, h2) {
                    (Some(v1), Some(v2)) => {
                        let decoded: u8 = v1 * 16 + v2;
                        proof {
                            assert(tail.skip(3) =~= s@.skip(i + 3));
                            assert(tail[1] == s@[i + 1] && tail[2] == s@[i + 2]);
                            if percent_decoded(s@.skip(i + 3)) is Some {
                                let t = percent_decoded(s@.skip(i + 3)).unwrap();
                                assert(out@ + (seq![decoded] + t) =~= out@.push(decoded) + t);
                            }
                        }
                        out.push(decoded);
                        i = i + 3;
                    },
                    _ => {
                        return None;
                    },
                }
            } else {
                proof {
                    assert(tail.len() < 3);
                }
                return None;
            }
        } else if b == 43 {  // '+'
            proof {
                assert(tail.skip(1) =~= s@.skip(i + 1));
                if percent_decoded(s@.skip(i + 1)) is Some {
                    let t = percent_decoded(s@.skip(i + 1)).unwrap();
                    assert(out@ + (seq![32u8] + t) =~= out@.push(32u8) + t);
                }
            }
            out.push(32);
            i = i + 1;
        } else {
            proof {
                assert(tail.skip(1) =~= s@.skip(i + 1));
                if percent_decoded(s@.skip(i + 1)) is Some {
                    let t = percent_decoded(s@.skip(i + 1)).unwrap();
                    assert(out@ + (seq![b] + t) =~= out@.push(b) + t);
                }
            }
            out.push(b);
            i = i + 1;
        }
    }
    proof {
        assert(s@.skip(i as int) =~= Seq::<u8>::empty());
        assert(out@ + Seq::<u8>::empty() =~= out@);
    }
    Some(out)
}

/// Splits the remaining input on `&`, with `cur` the segment read so far.
pub open spec fn split_segments(s: Seq<u8>, cur: Seq<u8>) -> Seq<Seq<u8>>
    decreases s.len(),
{
    if s.len() == 0 {
        seq![cur]
    } else if s[0] == 38 {  // '&'
        seq![cur] + split_segments(s.skip(1), Seq::<u8>::empty())
    } else {
        split_segments(s.skip(1), cur.push(s[0]))
    }
}

/// The `&`-separated segments of a body.
pub open spec fn form_segments(s: Seq<u8>) -> Seq<Seq<u8>> {
    split_segments(s, Seq::<u8>::empty())
}

/// Splits the remaining segment at its first `=`, with `key` the part read
/// so far; a segment without `=` is a key with an empty value.
pub open spec fn split_pair(s: Seq<u8>, key: Seq<u8>) -> (Seq<u8>, Seq<u8>)
    decreases s.len(),
{
    if s.len() == 0 {
        (key, Seq::<u8>::empty())
    } else if s[0] == 61 {  // '='
        (key, s.skip(1))
    } else {
        split_pair(s.skip(1), key.push(s[0]))
    }
}

/// Key and value of one segment, still percent-encoded.
pub open spec fn pair_of(seg: Seq<u8>) -> (Seq<u8>, Seq<u8>) {
    split_pair(seg, Seq::<u8>::empty())
}

/// The bytes of the key `name`.
pub open spec fn name_key() -> Seq<u8> {
    seq![110u8, 97u8, 109u8, 101u8]
}

/// The bytes of the key `email`.
pub open spec fn email_key() -> Seq<u8> {
    seq![101u8, 109u8, 97u8, 105u8, 108u8]
}

/// Why a body was refused; every variant is answered with HTTP 400.
#[derive(Clone, Copy, Debug, PartialEq, Eq, Structural)]
pub enum FormError {
    /// A `%` escape without two hexadecimal digits, in a key or a value.
    InvalidEncoding,
    /// The `name` key occurs more than once.
    DuplicateName,
    /// The `email` key occurs more than once.
    DuplicateEmail,
    /// No segment carries the `name` key.
    MissingName,
    /// No segment carries the `email` key.
    MissingEmail,
}

/// Walks the segments in order, filling the `name` and `email` slots; the
/// result carries the decoded values `(name, email)`.
pub open spec fn scan_segments(
    segs: Seq<Seq<u8>>,
    name: Option<Seq<u8>>,
    email: Option<Seq<u8>>,
) -> Result<(Seq<u8>, Seq<u8>), FormError>
    decreases segs.len(),
{
    if segs.len() == 0 {
        match (name, email) {
            (Some(n), Some(e)) => Ok((n, e)),
            (None, _) => Err(FormError::MissingName),
            (_, None) => Err(FormError::MissingEmail),
        }
    } else if segs[0].len() == 0 {
        scan_segments(segs.skip(1), name, email)
    } else {
        let kv = pair_of(segs[0]);
        match (percent_decoded(kv.0), percent_decoded(kv.1)) {
            (Some(kd), Some(vd)) => {
                if kd == name_key() {
                    if name is Some {
                        Err(FormError::DuplicateName)
                    } else {
                        scan_segments(segs.skip(1), Some(vd), email)
                    }
                } else if kd == email_key() {
                    if email is Some {
                        Err(FormError::DuplicateEmail)
                    } else {
                        scan_segments(segs.skip(1), name, Some(vd))
                    }
                } else {
                    scan_segments(segs.skip(1), name, email)
                }
            },
            _ => Err(FormError::InvalidEncoding),
        }
    }
}

/// The decoded `(name, email)` values of a body, or the reason it is refused.
pub open spec fn parse_form_spec(body: Seq<u8>) -> Result<(Seq<u8>, Seq<u8>), FormError> {
    scan_segments(form_segments(body), None, None)
}

/// The views of a list of byte vectors.
pub open spec fn seg_views(vs: Seq<Vec<u8>>) -> Seq<Seq<u8>> {
    vs.map_values(|v: Vec<u8>| v@)
}

/// The view of an optional byte vector.
pub open spec fn opt_view(o: Option<Vec<u8>>) -> Option<Seq<u8>> {
    match o {
        Some(v) => Some(v@),
        None => None,
    }
}

fn split_into_segments(body: &Vec<u8>) -> (r: Vec<Vec<u8>>)
    ensures
        seg_views(r@) == form_segments(body@),
{
    let mut segs: Vec<Vec<u8>> = Vec::new();
    let mut cur: Vec<u8> = Vec::new();
    let mut i: usize = 0;
    proof {
        assert(body@.skip(0) =~= body@);
        assert(seg_views(segs@) + split_segments(body@, cur@) =~= split_segments(body@, cur@));
    }
    while i < body.len()
        invariant
            i <= body.len(),
            form_segments(body@) == seg_views(segs@) + split_segments(
                body@.skip(i as int),
                cur@,
            ),
        decreases body.len() - i,
    {
        let ghost tail = body@.skip(i as int);
        let b = body[i];
        proof {
            assert(tail.skip(1) =~= body@.skip(i + 1));
        }
        if b == 38 {  // '&'
            proof {
                assert(seg_views(segs@.push(cur)) =~= seg_views(segs@).push(cur@));
                assert(seg_views(segs@) + (seq![cur@] + split_segments(
                    body@.skip(i + 1),
                    Seq::<u8>::empty(),
                )) =~= seg_views(segs@.push(cur)) + split_segments(
                    body@.skip(i + 1),
                    Seq::<u8>::empty(),
                ));
            }
            segs.push(cur);
            cur = Vec::new();
        } else {
            proof {
                assert(split_segments(tail, cur@) == split_segments(
                    body@.skip(i + 1),
                    cur@.push(b),
                ));
            }
            cur.push(b);
        }
        i = i + 1;
    }
    proof {
        assert(body@.skip(i as int) =~= Seq::<u8>::empty());
        assert(seg_views(segs@.push(cur)) =~= seg_views(segs@).push(cur@));
        assert(seg_views(segs@) + seq![cur@] =~= seg_views(segs@.push(cur)));
    }
    segs.push(cur);
    segs
}

fn split_pair_exec(seg: &Vec<u8>) -> (r: (Vec<u8>, Vec<u8>))
    ensures
        r.0@ == pair_of(seg@).0,
        r.1@ == pair_of(seg@).1,
{
    let mut key: Vec<u8> = Vec::new();
    let mut i: usize = 0;
    proof {
        assert(seg@.skip(0) =~= seg@);
    }
    while i < seg.len()
        invariant
            i <= seg.len(),
            pair_of(seg@) == split_pair(seg@.skip(i as int), key@),
        decreases seg.len() - i,
    {
        let ghost tail = seg@.skip(i as int);
        let b = seg[i];
        proof {
            assert(tail.skip(1) =~= seg@.skip(i + 1));
        }
        if b == 61 {  // '='
            let mut value: Vec<u8> = Vec::new();
            let mut j: usize = i + 1;
            while j < seg.len()
                invariant
                    i + 1 <= j <= seg.len(),
                    value@ == seg@.subrange(i + 1, j as int),
                decreases seg.len() - j,
            {
                let ghost prefix = seg@.subrange(i + 1, j as int);
                value.push(seg[j]);
                proof {
                    assert(prefix.push(seg@[j as int]) =~= seg@.subrange(i + 1, j + 1));
                }
                j = j + 1;
            }
            proof {
                assert(seg@.subrange(i + 1, seg@.len() as int) =~= tail.skip(1));
            }
            return (key, value);
        } else {
            key.push(b);
        }
        i = i + 1;
    }
    proof {
        assert(seg@.skip(i as int) =~= Seq::<u8>::empty());
    }
    (key, Vec::new())
}

pub(crate) fn bytes_eq(a: &Vec<u8>, b: &Vec<u8>) -> (r: bool)
    ensures
        r == (a@ == b@),
{
    if a.len() != b.len() {
        return false;
    }
    let mut i: usize = 0;
    while i < a.len()
        invariant
            i <= a.len(),
            a@.len() == b@.len(),
            forall|j: int| 0 <= j < i ==> a@[j] == b@[j],
        decreases a.len() - i,
    {
        if a[i] != b[i] {
            return false;
        }
        i = i + 1;
    }
    proof {
        assert(a@ =~= b@);
    }
    true
}

fn name_key_vec() -> (r: Vec<u8>)
    ensures
        r@ == name_key(),
{
    let mut v: Vec<u8> = Vec::new();
    v.push(110);
    v.push(97);
    v.push(109);
    v.push(101);
    proof {
        assert(v@ =~= name_key());
    }
    v
}

fn email_key_vec() -> (r: Vec<u8>)
    ensures
        r@ == email_key(),
{
    let mut v: Vec<u8> = Vec::new();
    v.push(101);
    v.push(109);
    v.push(97);
    v.push(105);
    v.push(108);
    proof {
        assert(v@ =~= email_key());
    }
    v
}

/// Decodes a body into its percent-decoded `(name, email)` byte values,
/// exactly as [`parse_form_spec`] describes.
pub fn parse_form(body: &Vec<u8>) -> (r: Result<(Vec<u8>, Vec<u8>), FormError>)
    ensures
        r matches Ok(p) ==> parse_form_spec(body@) == Ok::<_, FormError>((p.0@, p.1@)),
        r matches Err(e) ==> parse_form_spec(body@) == Err::<(Seq<u8>, Seq<u8>), _>(e),
{
    let segs = split_into_segments(body);
    let name_k = name_key_vec();
    let email_k = email_key_vec();
    let mut name: Option<Vec<u8>> = None;
    let mut email: Option<Vec<u8>> = None;
    let mut j: usize = 0;
    proof {
        assert(seg_views(segs@).skip(0) =~= seg_views(segs@));
    }
    while j < segs.len()
        invariant
            j <= segs.len(),
            seg_views(segs@) == form_segments(body@),
            name_k@ == name_key(),
            email_k@ == email_key(),
            parse_form_spec(body@) == scan_segments(
                seg_views(segs@).skip(j as int),
                opt_view(name),
                opt_view(email),
            ),
        decreases segs.len() - j,
    {
        let ghost rest = seg_views(segs@).skip(j as int);
        let seg = &segs[j];
        proof {
            assert(rest[0] == seg_views(segs@)[j as int]);
            assert(rest.skip(1) =~= seg_views(segs@).skip(j + 1));
        }
        if seg.len() > 0 {
            let kv = split_pair_exec(seg);
            let kd = percent_decode(&kv.0);
            let vd = percent_decode(&kv.1);
            match (kd, vd) {
                (Some(kd), Some(vd)) => {
                    if bytes_eq(&kd, &name_k) {
                        if name.is_some() {
                            return Err(FormError::DuplicateName);
                        }
                        name = Some(vd);
                    } else if bytes_eq(&kd, &email_k) {
                        if email.is_some() {
                            return Err(FormError::DuplicateEmail);
                        }
                        email = Some(vd);
                    }
                },
                _ => {
                    return Err(FormError::InvalidEncoding);
                },
            }
        }
        j = j + 1;
    }
    proof {
        assert(seg_views(segs@).skip(j as int) =~= Seq::<Seq<u8>>::empty());
    }
    match (name, email) {
        (Some(n), Some(e)) => Ok((n, e)),
        (None, _) => Err(FormError::MissingName),
        (_, None) => Err(FormError::MissingEmail),
    }
}

/// The shape required of a submitted email address: an `@` at an interior
/// position, so that both the local part and the domain are non-empty.
pub open spec fn valid_email_bytes(e: Seq<u8>) -> bool {
    exists|i: int| 0 < i < e.len() - 1 && e[i] == 64
}

/// Checks the shape of [`valid_email_bytes`].
pub fn email_shape_ok(e: &Vec<u8>) -> (r: bool)
    ensures
        r == valid_email_bytes(e@),
{
    if e.len() < 3 {
        return false;
    }
    let mut i: usize = 1;
    while i < e.len() - 1
        invariant
            1 <= i <= e.len() - 1,
            forall|j: int| 0 < j < i ==> e@[j] != 64,
        decreases e.len() - i,
    {
        if e[i] == 64 {
            return true;
        }
        i = i + 1;
    }
    false
}

/// One decoded submission: the two fields of the form body.
#[derive(Clone, Debug, PartialEq, Eq)]
pub struct FormData {
    /// Decoded `email` value.
    pub email: String,
    /// Decoded `name` value.
    pub name: String,
}

/// Why a submission was refused; every variant is answered with HTTP 400.
#[derive(Clone, Copy, Debug, PartialEq, Eq, Structural)]
pub enum IntakeError {
    /// The body itself does not decode to a `name` and an `email`.
    BadForm(FormError),
    /// The decoded `name` is empty.
    EmptyName,
    /// The decoded `email` is empty.
    EmptyEmail,
    /// The decoded `email` has no interior `@`.
    InvalidEmail,
    /// A decoded value is not valid UTF-8.
    NotUtf8,
}

/// The full intake policy: decode the body, require a non-empty name, a
/// non-empty email of a valid shape, and UTF-8 values. The result carries
/// the decoded `(name, email)` character sequences.
pub open spec fn intake_decision(body: Seq<u8>) -> Result<(Seq<char>, Seq<char>), IntakeError> {
    match parse_form_spec(body) {
        Err(e) => Err(IntakeError::BadForm(e)),
        Ok(p) => {
            if p.0.len() == 0 {
                Err(IntakeError::EmptyName)
            } else if p.1.len() == 0 {
                Err(IntakeError::EmptyEmail)
            } else if !valid_email_bytes(p.1) {
                Err(IntakeError::InvalidEmail)
            } else if !valid_utf8(p.0) || !valid_utf8(p.1) {
                Err(IntakeError::NotUtf8)
            } else {
                Ok((decode_utf8(p.0), decode_utf8(p.1)))
            }
        },
    }
}

/// Relies on std's `String::from_utf8`: it returns `Ok` exactly on valid
/// UTF-8 input and decodes it to the characters the bytes encode.
#[verifier::external_body]
fn bytes_to_string(v: Vec<u8>) -> (r: Option<String>)
    ensures
        r is Some <==> valid_utf8(v@),
        r matches Some(s) ==> s@ == decode_utf8(v@),
{
    String::from_utf8(v).ok()
}

/// Decodes and validates a submission body, as [`intake_decision`]
/// describes.
pub fn decode_form(body: &Vec<u8>) -> (r: Result<FormData, IntakeError>)
    ensures
        r matches Ok(f) ==> intake_decision(body@) == Ok::<_, IntakeError>((f.name@, f.email@)),
        r matches Err(e) ==> intake_decision(body@) == Err::<(Seq<char>, Seq<char>), _>(e),
{
    match parse_form(body) {
        Err(e) => Err(IntakeError::BadForm(e)),
        Ok((name, email)) => {
            if name.len() == 0 {
                Err(IntakeError::EmptyName)
            } else if email.len() == 0 {
                Err(IntakeError::EmptyEmail)
            } else if !email_shape_ok(&email) {
                Err(IntakeError::InvalidEmail)
            } else {
                match (bytes_to_string(name), bytes_to_string(email)) {
                    (Some(name), Some(email)) => Ok(FormData { email, name }),
                    _ => Err(IntakeError::NotUtf8),
                }
            }
        },
    }
}

} // verus!
