//! Imported TrueType fonts: their content-derived identifiers, their family
//! names and the records shown to the settings panel.
use vstd::prelude::*;
use crate::model::{font_name_ok, valid_font};
use crate::text::{all_hex, chars_of, is_hex_digit, owned, push_char, push_str, string_of};
use sha2::Digest;
use base64::Engine;

verus! {

/// Largest font file accepted, in bytes (32 MiB).
pub const FONT_SIZE_LIMIT: u64 = 32 * 1024 * 1024;

/// A font that can be offered in the settings: its identifier, the CSS family
/// under which its data is installed, and its display name.
#[derive(Clone, Debug)]
pub struct Font {
    pub id: String,
    pub family: String,
    pub name: String,
}

/// A font identifier: 64 hexadecimal digits, the SHA-256 of the font file.
/// It names a file and so never holds a path separator.
pub open spec fn id_ok(id: Seq<char>) -> bool {
    id.len() == 64 && forall|i: int| 0 <= i < id.len() ==> is_hex_digit(#[trigger] id[i])
}

/// Whether `id` is a well-formed font identifier.
pub fn valid_id(id: &str) -> (r: bool)
    ensures
        r == id_ok(id@),
{
    let cs = chars_of(id);
    cs.len() == 64 && all_hex(&cs)
}

/// The SHA-256 digest of `data`.
pub uninterp spec fn sha256_digest(data: Seq<u8>) -> Seq<u8>;

/// Calls `sha2::Sha256::digest` on `data`. Claims that the result is the
/// SHA-256 digest, a function of `data` alone, and that it is 32 bytes long
/// (`Sha256`'s output size is `U32`).
#[verifier::external_body]
fn sha256(data: &[u8]) -> (r: Vec<u8>)
    ensures
        r@ == sha256_digest(data@),
        r@.len() == 32,
{
    sha2::Sha256::digest(data).to_vec()
}

pub open spec fn hex_char(n: u8) -> char {
    if n < 10 {
        ('0' as u8 + n) as char
    } else {
        ('a' as u8 + (n - 10)) as char
    }
}

/// Lower-case hexadecimal, two digits per byte.
pub open spec fn hex_lower(bytes: Seq<u8>) -> Seq<char>
    decreases bytes.len(),
{
    if bytes.len() == 0 {
        seq![]
    } else {
        hex_lower(bytes.drop_last()) + seq![hex_char(bytes.last() / 16), hex_char(bytes.last() % 16)]
    }
}

fn hex_digit(n: u8) -> (c: char)
    requires
        n < 16,
    ensures
        c == hex_char(n),
        is_hex_digit(c),
{
    if n < 10 {
        (48u8 + n) as char
    } else {
        (97u8 + (n - 10)) as char
    }
}

proof fn lemma_hex_lower_len(bytes: Seq<u8>)
    ensures
        hex_lower(bytes).len() == 2 * bytes.len(),
        forall|i: int| 0 <= i < hex_lower(bytes).len() ==> is_hex_digit(#[trigger] hex_lower(bytes)[i]),
    decreases bytes.len(),
{
    if bytes.len() > 0 {
        lemma_hex_lower_len(bytes.drop_last());
        let b = bytes.last();
        let p = hex_lower(bytes.drop_last());
        assert forall|i: int| 0 <= i < hex_lower(bytes).len() implies is_hex_digit(
            #[trigger] hex_lower(bytes)[i],
        ) by {
            if i >= p.len() {
                let n: u8 = if i == p.len() {
                    b / 16
                } else {
                    b % 16
                };
                assert(n < 16);
                assert(hex_lower(bytes)[i] == hex_char(n));
            } else {
                assert(hex_lower(bytes)[i] == p[i]);
            }
        }
    }
}

/// Writes `bytes` as lower-case hexadecimal, as `{:x}` formats a digest.
pub fn to_hex_lower(bytes: &[u8]) -> (r: String)
    ensures
        r@ == hex_lower(bytes@),
{
    let mut r = String::new();
    let mut i: usize = 0;
    while i < bytes.len()
        invariant
            i <= bytes.len(),
            r@ == hex_lower(bytes@.take(i as int)),
        decreases bytes.len() - i,
    {
        let b = bytes[i];
        push_char(&mut r, hex_digit(b / 16));
        push_char(&mut r, hex_digit(b % 16));
        assert(bytes@.take(i + 1).drop_last() =~= bytes@.take(i as int));
        i += 1;
        assert(r@ =~= hex_lower(bytes@.take(i as int)));
    }
    assert(bytes@.take(bytes.len() as int) =~= bytes@);
    r
}

/// The identifier of a font file: its SHA-256 in lower-case hexadecimal.
pub fn font_id(data: &[u8]) -> (r: String)
    ensures
        r@ == hex_lower(sha256_digest(data@)),
        id_ok(r@),
{
    let digest = sha256(data);
    let r = to_hex_lower(&digest);
    proof {
        lemma_hex_lower_len(digest@);
    }
    r
}

/// The family names of the faces in a font file, in face order.
pub uninterp spec fn font_family_list(data: Seq<u8>) -> Seq<Seq<char>>;

pub open spec fn texts_view(v: Seq<String>) -> Seq<Seq<char>> {
    v.map_values(|s: String| s@)
}

/// Loads `data` into a fresh `fontdb::Database` and lists the family names of
/// its faces. Claims that the list depends on `data` alone; what fontdb
/// parses out of the file is not stated here.
#[verifier::external_body]
fn font_families(data: Vec<u8>) -> (r: Vec<String>)
    ensures
        texts_view(r@) == font_family_list(data@),
{
    let mut db = fontdb::Database::new();
    db.load_font_data(data);
    db.faces().flat_map(|f| f.families.iter().map(|(name, _)| name.clone())).collect()
}

// ---------------------------------------------------------------------------
// Ordering of names

/// The order of `String`: lexicographic by code point.
pub open spec fn text_lt(a: Seq<char>, b: Seq<char>) -> bool
    decreases a.len(),
{
    if a.len() == 0 {
        b.len() > 0
    } else if b.len() == 0 {
        false
    } else if a[0] != b[0] {
        a[0] < b[0]
    } else {
        text_lt(a.drop_first(), b.drop_first())
    }
}

pub(crate) proof fn lemma_text_lt_total(a: Seq<char>, b: Seq<char>)
    ensures
        a != b ==> text_lt(a, b) || text_lt(b, a),
        !(text_lt(a, b) && text_lt(b, a)),
        !text_lt(a, a),
    decreases a.len(),
{
    if a.len() > 0 {
        lemma_text_lt_total(a.drop_first(), a.drop_first());
    }
    if a.len() > 0 && b.len() > 0 {
        lemma_text_lt_total(a.drop_first(), b.drop_first());
        if a[0] == b[0] && a.drop_first() == b.drop_first() {
            assert(a =~= seq![a[0]] + a.drop_first());
            assert(b =~= seq![b[0]] + b.drop_first());
        }
    } else if a.len() == 0 && b.len() == 0 {
        assert(a =~= b);
    }
}

pub(crate) proof fn lemma_text_lt_trans(a: Seq<char>, b: Seq<char>, c: Seq<char>)
    requires
        text_lt(a, b),
        text_lt(b, c),
    ensures
        text_lt(a, c),
    decreases a.len(),
{
    if a.len() > 0 && b.len() > 0 && c.len() > 0 && a[0] == b[0] && b[0] == c[0] {
        lemma_text_lt_trans(a.drop_first(), b.drop_first(), c.drop_first());
    }
}

/// Compares two names in the order of `String`.
pub(crate) fn text_less(a: &[char], b: &[char]) -> (r: bool)
    ensures
        r == text_lt(a@, b@),
{
    let mut i: usize = 0;
    assert(a@.skip(0) =~= a@);
    assert(b@.skip(0) =~= b@);
    while i < a.len() && i < b.len() && a[i] == b[i]
        invariant
            i <= a.len(),
            i <= b.len(),
            text_lt(a@, b@) == text_lt(a@.skip(i as int), b@.skip(i as int)),
        decreases a.len() - i,
    {
        assert(a@.skip(i as int).drop_first() =~= a@.skip(i + 1));
        assert(b@.skip(i as int).drop_first() =~= b@.skip(i + 1));
        i += 1;
    }
    if i == a.len() {
        i < b.len()
    } else if i == b.len() {
        false
    } else {
        a[i] < b[i]
    }
}

pub open spec fn chars_view(v: Seq<Vec<char>>) -> Seq<Seq<char>> {
    v.map_values(|c: Vec<char>| c@)
}

/// Strictly increasing in the order of `String`.
pub open spec fn strictly_sorted(v: Seq<Seq<char>>) -> bool {
    forall|a: int, b: int| 0 <= a < b < v.len() ==> text_lt(v[a], v[b])
}

/// Adds `x` to a strictly sorted list unless it is already there.
fn insert_sorted(out: &mut Vec<Vec<char>>, x: Vec<char>)
    requires
        strictly_sorted(chars_view(old(out)@)),
    ensures
        strictly_sorted(chars_view(final(out)@)),
        chars_view(final(out)@).to_set() == chars_view(old(out)@).to_set().insert(x@),
{
    let ghost before = chars_view(out@);
    let mut p: usize = 0;
    while p < out.len() && text_less(&out[p], &x)
        invariant
            p <= out@.len(),
            before == chars_view(out@),
            forall|a: int| 0 <= a < p ==> text_lt(before[a], x@),
        decreases out.len() - p,
    {
        p += 1;
    }
    if p < out.len() && crate::text::seq_eq(&out[p], &x) {
        assert(before.to_set().insert(x@) =~= before.to_set()) by {
            assert(before[p as int] == x@);
        }
        return;
    }
    proof {
        assert forall|b: int| p <= b < before.len() implies text_lt(x@, before[b]) by {
            lemma_text_lt_total(x@, before[p as int]);
            if b > p {
                lemma_text_lt_trans(x@, before[p as int], before[b]);
            }
        }
    }
    let ghost xv = x@;
    out.insert(p, x);
    let ghost after = chars_view(out@);
    assert(after =~= before.insert(p as int, xv));
    proof {
        assert forall|a: int, b: int| 0 <= a < b < after.len() implies text_lt(after[a], after[b]) by {
            if b < p {
            } else if b == p {
            } else if a < p {
                lemma_text_lt_trans(after[a], xv, after[b]);
            } else if a == p {
            } else {
            }
        }
        assert(after.to_set() =~= before.to_set().insert(xv)) by {
            assert forall|y: Seq<char>| after.to_set().contains(y) implies before.to_set().insert(
                xv,
            ).contains(y) by {
                let a = choose|a: int| 0 <= a < after.len() && after[a] == y;
                if a < p {
                    assert(before[a] == y);
                } else if a > p {
                    assert(before[a - 1] == y);
                }
            }
            assert forall|y: Seq<char>| before.to_set().insert(xv).contains(y) implies after.to_set().contains(y) by {
                if y == xv {
                    assert(after[p as int] == y);
                } else {
                    let a = choose|a: int| 0 <= a < before.len() && before[a] == y;
                    if a < p {
                        assert(after[a] == y);
                    } else {
                        assert(after[a + 1] == y);
                    }
                }
            }
        }
    }
}

proof fn lemma_push_to_set(s: Seq<Seq<char>>, x: Seq<char>)
    ensures
        s.push(x).to_set() == s.to_set().insert(x),
{
    let t = s.push(x);
    assert forall|y: Seq<char>| t.to_set().contains(y) implies s.to_set().insert(x).contains(y) by {
        assert(t.contains(y));
        let i = choose|i: int| 0 <= i < t.len() && t[i] == y;
        if i < s.len() {
            assert(s[i] == y);
            assert(s.contains(y));
        }
    }
    assert forall|y: Seq<char>| s.to_set().insert(x).contains(y) implies t.to_set().contains(y) by {
        if y == x {
            assert(t[s.len() as int] == y);
            assert(t.contains(y));
        } else {
            assert(s.contains(y));
            let i = choose|i: int| 0 <= i < s.len() && s[i] == y;
            assert(t[i] == y);
            assert(t.contains(y));
        }
    }
    assert(t.to_set() =~= s.to_set().insert(x));
}

/// The usable font names of `raw`.
pub open spec fn usable_names(raw: Seq<Seq<char>>) -> Set<Seq<char>> {
    raw.to_set().filter(|n: Seq<char>| font_name_ok(n))
}

/// The usable names among `raw`, without repeats, in the order of `String`.
pub fn valid_font_names(raw: Vec<String>) -> (r: Vec<String>)
    ensures
        strictly_sorted(texts_view(r@)),
        texts_view(r@).to_set() == usable_names(texts_view(raw@)),
{
    let ghost rv = texts_view(raw@);
    let mut out: Vec<Vec<char>> = Vec::new();
    let mut i: usize = 0;
    assert(chars_view(out@).to_set() =~= usable_names(rv.take(0)));
    while i < raw.len()
        invariant
            i <= raw.len(),
            rv == texts_view(raw@),
            strictly_sorted(chars_view(out@)),
            chars_view(out@).to_set() == usable_names(rv.take(i as int)),
        decreases raw.len() - i,
    {
        let name = raw[i].as_str();
        assert(rv[i as int] == name@);
        let ghost prev = chars_view(out@);
        assert(rv.take(i + 1) =~= rv.take(i as int).push(name@));
        if valid_font(name) {
            let x = chars_of(name);
            insert_sorted(&mut out, x);
            proof { lemma_push_to_set(rv.take(i as int), name@); }
            assert(usable_names(rv.take(i + 1)) =~= usable_names(rv.take(i as int)).insert(name@));
        } else {
            proof { lemma_push_to_set(rv.take(i as int), name@); }
            assert(usable_names(rv.take(i + 1)) =~= usable_names(rv.take(i as int)));
        }
        i += 1;
    }
    assert(rv.take(raw.len() as int) =~= rv);
    let mut r: Vec<String> = Vec::new();
    let mut k: usize = 0;
    while k < out.len()
        invariant
            k <= out@.len(),
            texts_view(r@) == chars_view(out@).take(k as int),
        decreases out.len() - k,
    {
        let t = string_of(&out[k]);
        proof {
            assert(texts_view(r@.push(t)) =~= texts_view(r@).push(t@));
            assert(chars_view(out@).take(k + 1) =~= chars_view(out@).take(k as int).push(out@[k as int]@));
        }
        r.push(t);
        k += 1;
    }
    assert(chars_view(out@).take(out.len() as int) =~= chars_view(out@));
    r
}

/// The usable family names of a font file, once each, in the order of `String`.
pub fn names(data: Vec<u8>) -> (r: Vec<String>)
    ensures
        strictly_sorted(texts_view(r@)),
        texts_view(r@).to_set() == usable_names(font_family_list(data@)),
{
    valid_font_names(font_families(data))
}

/// The CSS family under which the font with identifier `id` is installed.
pub open spec fn font_family_for(id: Seq<char>) -> Seq<char> {
    "OnPenFont-"@ + id
}

/// The record of a font file with identifier `id`: named after the first of
/// its usable family names in the order of `String`, or an error when it has
/// none (not a font, or unsupported).
pub fn asset(id: String, bytes: Vec<u8>) -> (r: Result<Font, String>)
    ensures
        ({
            let names = font_family_list(bytes@);
            match r {
                Ok(font) => {
                    &&& font.id@ == id@
                    &&& font.family@ == font_family_for(id@)
                    &&& font_name_ok(font.name@)
                    &&& exists|j: int| 0 <= j < names.len() && names[j] == font.name@
                    &&& forall|j: int|
                        0 <= j < names.len() && font_name_ok(#[trigger] names[j]) && names[j]
                            != font.name@ ==> text_lt(font.name@, names[j])
                },
                Err(e) => {
                    &&& e@ == "Invalid or unsupported font file"@
                    &&& forall|j: int| 0 <= j < names.len() ==> !font_name_ok(#[trigger] names[j])
                },
            }
        }),
{
    let list = names(bytes);
    let ghost lv = texts_view(list@);
    let ghost raw = font_family_list(bytes@);
    if list.len() == 0 {
        assert forall|j: int| 0 <= j < raw.len() implies !font_name_ok(#[trigger] raw[j]) by {
            if font_name_ok(raw[j]) {
                assert(raw.to_set().contains(raw[j]));
                assert(usable_names(raw).contains(raw[j]));
                assert(lv.to_set().contains(raw[j]));
            }
        }
        return Err(owned("Invalid or unsupported font file"));
    }
    let name = list[0].clone();
    assert(lv[0] == name@);
    proof {
        assert(lv.to_set().contains(lv[0]));
        assert(usable_names(raw).contains(name@));
        assert forall|j: int|
            0 <= j < raw.len() && font_name_ok(#[trigger] raw[j]) && raw[j] != name@ implies text_lt(
            name@,
            raw[j],
        ) by {
            assert(raw.to_set().contains(raw[j]));
            assert(usable_names(raw).contains(raw[j]));
            assert(lv.to_set().contains(raw[j]));
            let a = choose|a: int| 0 <= a < lv.len() && lv[a] == raw[j];
            assert(a != 0);
        }
    }
    let mut family = owned("OnPenFont-");
    push_str(&mut family, id.as_str());
    Ok(Font { family, id, name })
}

/// Whether a font file of `len` bytes may be read.
pub fn check_font_size(len: u64) -> (r: Result<(), String>)
    ensures
        r is Ok <==> len <= FONT_SIZE_LIMIT,
        r matches Err(e) ==> e@ == "Font file must be smaller than 32 MB"@,
{
    if len > FONT_SIZE_LIMIT {
        return Err(owned("Font file must be smaller than 32 MB"));
    }
    Ok(())
}

/// The character of the standard base64 alphabet for the 6-bit value `n`.
pub open spec fn base64_char(n: int) -> char {
    if n < 26 {
        ('A' as int + n) as char
    } else if n < 52 {
        ('a' as int + (n - 26)) as char
    } else if n < 62 {
        ('0' as int + (n - 52)) as char
    } else if n == 62 {
        '+'
    } else {
        '/'
    }
}

/// Standard base64 (RFC 4648 alphabet, with `=` padding) of `data`: each
/// group of three bytes becomes four characters of six bits each.
pub open spec fn base64_standard(data: Seq<u8>) -> Seq<char>
    decreases data.len(),
{
    if data.len() == 0 {
        seq![]
    } else if data.len() == 1 {
        let a = data[0] as int;
        seq![base64_char(a / 4), base64_char((a % 4) * 16), '=', '=']
    } else if data.len() == 2 {
        let (a, b) = (data[0] as int, data[1] as int);
        seq![base64_char(a / 4), base64_char((a % 4) * 16 + b / 16), base64_char((b % 16) * 4), '=']
    } else {
        let (a, b, c) = (data[0] as int, data[1] as int, data[2] as int);
        seq![
            base64_char(a / 4),
            base64_char((a % 4) * 16 + b / 16),
            base64_char((b % 16) * 4 + c / 64),
            base64_char(c % 64),
        ] + base64_standard(data.skip(3))
    }
}

/// Calls `base64::engine::general_purpose::STANDARD.encode`. Claims that the
/// text is the standard padded base64 of `data`. The engine panics when the
/// encoded length overflows `usize`, which the bound in `requires` excludes.
#[verifier::external_body]
pub(crate) fn base64_encode(data: &[u8]) -> (r: String)
    requires
        data@.len() <= usize::MAX / 2,
    ensures
        r@ == base64_standard(data@),
{
    base64::engine::general_purpose::STANDARD.encode(data)
}

/// The font file as sent to the web view: standard base64.
pub fn encode_font(data: &[u8]) -> (r: String)
    requires
        data@.len() <= FONT_SIZE_LIMIT,
    ensures
        r@ == base64_standard(data@),
{
    base64_encode(data)
}

} // verus!
