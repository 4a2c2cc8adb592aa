//! Validator: turns an untrusted filename into a sanitized (name,
//! extension) pair or rejects it, and checks that an identifier string is a
//! well-formed opaque token.
//!
//! Rejections carry the HTTP status they are surfaced with: 400 for a
//! malformed name or identifier, 415 for a denylisted extension or name.

use vstd::prelude::*;
use vstd::string::StrSliceExecFns;

verus! {

// ---------------------------------------------------------------------------
// Scanning for the last occurrence of a character
// ---------------------------------------------------------------------------

/// Index just past the last occurrence of `c` in `s`, or 0 when `c` does
/// not occur.
pub open spec fn scan_back(s: Seq<char>, c: char) -> int
    decreases s.len(),
{
    if s.len() == 0 {
        0
    } else if s[s.len() - 1] == c {
        s.len() as int
    } else {
        scan_back(s.drop_last(), c)
    }
}

pub proof fn lemma_scan_back_bounds(s: Seq<char>, c: char)
    ensures
        0 <= scan_back(s, c) <= s.len(),
    decreases s.len(),
{
    if s.len() != 0 && s[s.len() - 1] != c {
        lemma_scan_back_bounds(s.drop_last(), c);
    }
}

/// `c` does not occur at or after `scan_back(s, c)`.
pub proof fn lemma_scan_back_no_later(s: Seq<char>, c: char)
    ensures
        forall|j: int| scan_back(s, c) <= j < s.len() ==> s[j] != c,
    decreases s.len(),
{
    if s.len() != 0 && s[s.len() - 1] != c {
        lemma_scan_back_bounds(s.drop_last(), c);
        lemma_scan_back_no_later(s.drop_last(), c);
        assert forall|j: int| scan_back(s, c) <= j < s.len() implies s[j] != c by {
            if j < s.len() - 1 {
                assert(s.drop_last()[j] == s[j]);
            }
        }
    }
}

/// When `c` does not occur in `s` at all, the scan lands on 0.
pub proof fn lemma_scan_back_absent(s: Seq<char>, c: char)
    requires
        forall|j: int| 0 <= j < s.len() ==> s[j] != c,
    ensures
        scan_back(s, c) == 0,
    decreases s.len(),
{
    if s.len() != 0 {
        assert forall|j: int| 0 <= j < s.drop_last().len() implies s.drop_last()[j] != c by {
            assert(s.drop_last()[j] == s[j]);
        }
        lemma_scan_back_absent(s.drop_last(), c);
    }
}

/// Finds `scan_back(s@, c)` by walking backwards from the end of `s`.
fn find_scan_back(s: &str, c: char) -> (r: usize)
    ensures
        r == scan_back(s@, c),
{
    let n = s.unicode_len();
    let mut i: usize = n;
    proof {
        assert(s@.subrange(0, n as int) =~= s@);
    }
    while i > 0
        invariant
            i <= n,
            n == s@.len(),
            scan_back(s@, c) == scan_back(s@.subrange(0, i as int), c),
        decreases i,
    {
        let ghost t = s@.subrange(0, i as int);
        if s.get_char(i - 1) == c {
            proof {
                assert(t[t.len() - 1] == c);
            }
            return i;
        }
        proof {
            assert(t[t.len() - 1] != c);
            assert(t.drop_last() =~= s@.subrange(0, i as int - 1));
        }
        i = i - 1;
    }
    proof {
        assert(s@.subrange(0, 0) =~= Seq::<char>::empty());
    }
    0
}

// ---------------------------------------------------------------------------
// Substring search
// ---------------------------------------------------------------------------

/// `needle` occurs contiguously somewhere in `hay`.
pub open spec fn contains_substr(hay: Seq<char>, needle: Seq<char>) -> bool {
    exists|i: int|
        0 <= i && i + needle.len() <= hay.len() && #[trigger] hay.subrange(
            i,
            i + needle.len() as int,
        ) == needle
}

/// Compares `needle` against `hay` at offset `i`.
fn match_at(hay: &str, needle: &str, i: usize) -> (r: bool)
    requires
        i + needle@.len() <= hay@.len(),
    ensures
        r == (hay@.subrange(i as int, i as int + needle@.len() as int) == needle@),
{
    let nh = hay.unicode_len();
    let nn = needle.unicode_len();
    let ghost target = hay@.subrange(i as int, i as int + needle@.len() as int);
    let mut j: usize = 0;
    while j < nn
        invariant
            j <= nn,
            nn == needle@.len(),
            nh == hay@.len(),
            i + nn <= nh,
            target == hay@.subrange(i as int, i as int + nn as int),
            forall|l: int| 0 <= l < j ==> hay@[i + l] == needle@[l],
        decreases nn - j,
    {
        if hay.get_char(i + j) != needle.get_char(j) {
            proof {
                assert(target[j as int] != needle@[j as int]);
            }
            return false;
        }
        j += 1;
    }
    proof {
        assert(target =~= needle@);
    }
    true
}

/// Whether `hay` contains `needle` as a contiguous substring.
fn str_contains(hay: &str, needle: &str) -> (r: bool)
    ensures
        r == contains_substr(hay@, needle@),
{
    let nh = hay.unicode_len();
    let nn = needle.unicode_len();
    if nn > nh {
        return false;
    }
    let bound = nh - nn;
    let mut i: usize = 0;
    while i <= bound
        invariant
            nh == hay@.len(),
            nn == needle@.len(),
            nn <= nh,
            bound == nh - nn,
            i <= bound + 1,
            forall|k: int|
                0 <= k < i ==> #[trigger] hay@.subrange(k, k + needle@.len() as int) != needle@,
        decreases bound + 1 - i,
    {
        if match_at(hay, needle, i) {
            return true;
        }
        if i == bound {
            return false;
        }
        i += 1;
    }
    false
}

// ---------------------------------------------------------------------------
// Case-insensitive comparison against a lower-case word
// ---------------------------------------------------------------------------

/// `c` matches `t` ignoring ASCII case, where `t` is expected lower-case.
pub open spec fn char_eq_ci(c: char, t: char) -> bool {
    c == t || (97 <= t as int <= 122 && c as int == t as int - 32)
}

/// `a` equals the lower-case word `low`, ignoring ASCII case in `a`.
pub open spec fn eq_ci(a: Seq<char>, low: Seq<char>) -> bool {
    a.len() == low.len() && forall|i: int| 0 <= i < a.len() ==> char_eq_ci(a[i], low[i])
}

/// Whether `a` equals `low` up to ASCII case.
pub fn str_eq_ci(a: &str, low: &str) -> (r: bool)
    ensures
        r == eq_ci(a@, low@),
{
    let na = a.unicode_len();
    let nl = low.unicode_len();
    if na != nl {
        return false;
    }
    let mut i: usize = 0;
    while i < na
        invariant
            i <= na,
            na == a@.len(),
            na == low@.len(),
            forall|j: int| 0 <= j < i ==> char_eq_ci(a@[j], low@[j]),
        decreases na - i,
    {
        let ca = a.get_char(i);
        let cl = low.get_char(i);
        let cau = ca as u32;
        let clu = cl as u32;
        let ok = ca == cl || (97 <= clu && clu <= 122 && cau + 32 == clu);
        if !ok {
            proof {
                assert(!char_eq_ci(a@[i as int], low@[i as int]));
            }
            return false;
        }
        i += 1;
    }
    true
}

// ---------------------------------------------------------------------------
// Filename validation
// ---------------------------------------------------------------------------

/// The final path segment of `raw`: everything after the last `/`.
pub open spec fn final_segment(raw: Seq<char>) -> Seq<char> {
    raw.subrange(scan_back(raw, '/'), raw.len() as int)
}

/// Extensions refused outright: executable, script and key-material
/// formats.
pub open spec fn denied_ext(ext: Seq<char>) -> bool {
    ||| eq_ci(ext, "exe"@)
    ||| eq_ci(ext, "dll"@)
    ||| eq_ci(ext, "html"@)
    ||| eq_ci(ext, "css"@)
    ||| eq_ci(ext, "php"@)
    ||| eq_ci(ext, "pub"@)
}

/// Name fragments refused outright: private-key material.
pub open spec fn denied_name(name: Seq<char>) -> bool {
    contains_substr(name, "_rsa"@) || contains_substr(name, "_ed25519"@)
}

/// What filename validation yields for `raw`: the sanitized name (the
/// final path segment) together with its extension (the text after the
/// segment's last `.`), or the status the rejection is surfaced with.
///
/// The split is accepted only when both the base name (before the last
/// `.`) and the extension are non-empty.
pub open spec fn validate_file_spec(raw: Seq<char>) -> Result<(Seq<char>, Seq<char>), u16> {
    let seg = final_segment(raw);
    let d = scan_back(seg, '.');
    if !(2 <= d && d < seg.len()) {
        Err(400u16)
    } else {
        let ext = seg.subrange(d, seg.len() as int);
        if denied_ext(ext) || denied_name(seg) {
            Err(415u16)
        } else {
            Ok((seg, ext))
        }
    }
}

/// The views of an executable validation result.
pub open spec fn file_res_view(r: Result<(String, String), u16>) -> Result<
    (Seq<char>, Seq<char>),
    u16,
> {
    match r {
        Ok((name, ext)) => Ok((name@, ext@)),
        Err(c) => Err(c),
    }
}

/// Validates a client-supplied filename: keeps only the final path
/// segment, splits it at its last `.` into a non-empty base name and a
/// non-empty extension, and refuses denylisted extensions and name
/// fragments.
pub fn validate_file(filename: &str) -> (r: Result<(String, String), u16>)
    ensures
        file_res_view(r) == validate_file_spec(filename@),
{
    let n = filename.unicode_len();
    proof {
        lemma_scan_back_bounds(filename@, '/');
    }
    let start = find_scan_back(filename, '/');
    let seg = filename.substring_char(start, n);
    proof {
        assert(seg@ == final_segment(filename@));
        lemma_scan_back_bounds(seg@, '.');
    }
    let m = seg.unicode_len();
    let d = find_scan_back(seg, '.');
    if d < 2 || d >= m {
        return Err(400);
    }
    let ext = seg.substring_char(d, m);
    proof {
        assert(ext@ == final_segment(filename@).subrange(
            scan_back(final_segment(filename@), '.'),
            final_segment(filename@).len() as int,
        ));
    }
    let denied = str_eq_ci(ext, "exe") || str_eq_ci(ext, "dll") || str_eq_ci(ext, "html")
        || str_eq_ci(ext, "css") || str_eq_ci(ext, "php") || str_eq_ci(ext, "pub")
        || str_contains(seg, "_rsa") || str_contains(seg, "_ed25519");
    if denied {
        return Err(415);
    }
    Ok((seg.to_owned(), ext.to_owned()))
}

// ---------------------------------------------------------------------------
// Identifier validation
// ---------------------------------------------------------------------------

/// A lower-case hex digit, as used in canonical identifier tokens.
pub open spec fn is_lower_hex(c: char) -> bool {
    (48 <= c as int <= 57) || (97 <= c as int <= 102)
}

/// What the character at position `i` of a canonical token must be.
pub open spec fn token_char_ok(s: Seq<char>, i: int) -> bool {
    if i == 8 || i == 13 || i == 18 || i == 23 {
        s[i] == '-'
    } else {
        is_lower_hex(s[i])
    }
}

/// A canonical identifier token: 36 characters, `-` at positions 8, 13,
/// 18 and 23, lower-case hex digits everywhere else.
pub open spec fn is_token(s: Seq<char>) -> bool {
    s.len() == 36 && forall|i: int| 0 <= i < 36 ==> token_char_ok(s, i)
}

/// Validates an identifier string: only well-formed canonical tokens are
/// accepted; anything else is a client error, surfaced as 400.
pub fn validate_hash(hash: &str) -> (r: Result<String, u16>)
    ensures
        is_token(hash@) ==> (r matches Ok(s) && s@ == hash@),
        !is_token(hash@) ==> r == Err::<String, u16>(400u16),
{
    let n = hash.unicode_len();
    if n != 36 {
        return Err(400);
    }
    let mut i: usize = 0;
    while i < 36
        invariant
            i <= 36,
            hash@.len() == 36,
            forall|j: int| 0 <= j < i ==> token_char_ok(hash@, j),
        decreases 36 - i,
    {
        let c = hash.get_char(i);
        let ok = if i == 8 || i == 13 || i == 18 || i == 23 {
            c == '-'
        } else {
            let u = c as u32;
            (48 <= u && u <= 57) || (97 <= u && u <= 102)
        };
        if !ok {
            proof {
                assert(!token_char_ok(hash@, i as int));
            }
            return Err(400);
        }
        i += 1;
    }
    Ok(hash.to_owned())
}

// ---------------------------------------------------------------------------
// Laws
// ---------------------------------------------------------------------------

/// A filename whose final path segment holds no `.` at all cannot yield an
/// extension and is rejected.
pub proof fn lemma_rejects_without_extension(raw: Seq<char>)
    requires
        forall|j: int| 0 <= j < final_segment(raw).len() ==> final_segment(raw)[j] != '.',
    ensures
        validate_file_spec(raw) == Err::<(Seq<char>, Seq<char>), u16>(400u16),
{
    lemma_scan_back_absent(final_segment(raw), '.');
}

/// A filename that ends in a path separator has an empty final segment and
/// is rejected.
pub proof fn lemma_rejects_trailing_separator(raw: Seq<char>)
    requires
        raw.len() > 0,
        raw[raw.len() - 1] == '/',
    ensures
        validate_file_spec(raw) == Err::<(Seq<char>, Seq<char>), u16>(400u16),
{
    assert(final_segment(raw) =~= Seq::<char>::empty());
}

/// Whatever validation accepts is free of path separators: the sanitized
/// name and the extension are drawn from the final path segment only, so
/// no directory component of the input ever reaches a storage key.
pub proof fn lemma_accepted_has_no_separator(raw: Seq<char>)
    ensures
        validate_file_spec(raw) matches Ok(p) ==> (forall|j: int|
            0 <= j < p.0.len() ==> p.0[j] != '/') && (forall|j: int|
            0 <= j < p.1.len() ==> p.1[j] != '/'),
{
    lemma_scan_back_bounds(raw, '/');
    lemma_scan_back_no_later(raw, '/');
    if validate_file_spec(raw) is Ok {
        let seg = final_segment(raw);
        assert(forall|j: int| 0 <= j < seg.len() ==> seg[j] != '/');
        let d = scan_back(seg, '.');
        lemma_scan_back_bounds(seg, '.');
        let ext = seg.subrange(d, seg.len() as int);
        assert(forall|j: int| 0 <= j < ext.len() ==> ext[j] == seg[d + j]);
    }
}

/// Validation is stable: a name it accepted, validated again — as
/// retrieval does with the filename echoed in a location string — is
/// accepted unchanged, with the same extension.
pub proof fn lemma_validate_idempotent(raw: Seq<char>)
    ensures
        validate_file_spec(raw) matches Ok(p) ==> validate_file_spec(p.0) == Ok::<
            (Seq<char>, Seq<char>),
            u16,
        >(p),
{
    if validate_file_spec(raw) is Ok {
        let seg = final_segment(raw);
        lemma_scan_back_bounds(raw, '/');
        lemma_scan_back_no_later(raw, '/');
        lemma_scan_back_absent(seg, '/');
        assert(final_segment(seg) =~= seg);
    }
}

/// A filename whose extension is on the denylist is rejected no matter
/// what its base name is, and no matter the letter case of the extension.
pub proof fn lemma_rejects_denied_extension(raw: Seq<char>)
    requires
        2 <= scan_back(final_segment(raw), '.') < final_segment(raw).len(),
        denied_ext(
            final_segment(raw).subrange(
                scan_back(final_segment(raw), '.'),
                final_segment(raw).len() as int,
            ),
        ),
    ensures
        validate_file_spec(raw) == Err::<(Seq<char>, Seq<char>), u16>(415u16),
{
}

/// A filename whose final segment holds a denylisted fragment is rejected
/// no matter what its extension is.
pub proof fn lemma_rejects_denied_name(raw: Seq<char>)
    requires
        denied_name(final_segment(raw)),
    ensures
        validate_file_spec(raw) is Err,
{
}

} // verus!
