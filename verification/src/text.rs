//! Small verified text utilities shared across the crate, together with the
//! few std string operations that vstd leaves unspecified.
use vstd::prelude::*;

verus! {

/// Relies on `str::eq` (via `PartialEq`): two string slices compare equal
/// exactly when their character sequences are equal.
#[verifier::external_body]
pub fn str_eq(a: &str, b: &str) -> (r: bool)
    ensures
        r == (a@ == b@),
{
    a == b
}

/// Relies on `String::push`: appends one character at the end.
pub assume_specification[ String::push ](s: &mut String, c: char)
    ensures
        final(s)@ == old(s)@.push(c),
;

/// The decimal digit `d` (must be below ten) as a character.
pub open spec fn spec_digit(d: nat) -> char
    recommends
        d < 10,
{
    ((d + 48) as u8) as char
}

/// The usual decimal rendering of `n`, most significant digit first.
pub open spec fn spec_dec(n: nat) -> Seq<char>
    decreases n,
{
    if n < 10 {
        seq![spec_digit(n)]
    } else {
        spec_dec(n / 10).push(spec_digit(n % 10))
    }
}

/// Renders `n` in decimal.
pub fn u64_to_string(n: u64) -> (s: String)
    ensures
        s@ == spec_dec(n as nat),
    decreases n,
{
    if n < 10 {
        let mut s = String::new();
        s.push(((n + 48) as u8) as char);
        s
    } else {
        let mut s = u64_to_string(n / 10);
        s.push(((n % 10 + 48) as u8) as char);
        s
    }
}

/// The decimal rendering of `n`, with a leading minus sign when negative.
pub open spec fn spec_dec_i64(n: int) -> Seq<char> {
    if n < 0 {
        seq!['-'] + spec_dec((-n) as nat)
    } else {
        spec_dec(n as nat)
    }
}

/// Renders a signed value in decimal.
pub fn i64_to_string(n: i64) -> (s: String)
    ensures
        s@ == spec_dec_i64(n as int),
{
    if n < 0 {
        let mut s = String::new();
        s.push('-');
        let mag: u64 = if n == i64::MIN {
            9223372036854775808u64
        } else {
            (-n) as u64
        };
        let digits = u64_to_string(mag);
        s.append(digits.as_str());
        s
    } else {
        u64_to_string(n as u64)
    }
}

/// One character mapped to lower case, for ASCII letters only.
pub open spec fn spec_lower_char(c: char) -> char {
    if 65 <= c as u32 <= 90 {
        ((c as u32 + 32) as u8) as char
    } else {
        c
    }
}

/// A string with its ASCII letters mapped to lower case.
pub open spec fn spec_ascii_lower(s: Seq<char>) -> Seq<char> {
    s.map_values(|c: char| spec_lower_char(c))
}

/// Maps the ASCII letters of `s` to lower case; other characters are kept.
pub fn ascii_lower(s: &str) -> (r: String)
    ensures
        r@ == spec_ascii_lower(s@),
{
    let n = s.unicode_len();
    let mut r = String::new();
    let mut i: usize = 0;
    while i < n
        invariant
            i <= n,
            n == s@.len(),
            r@ == spec_ascii_lower(s@.subrange(0, i as int)),
        decreases n - i,
    {
        let c = s.get_char(i);
        let u = c as u32;
        if 65 <= u && u <= 90 {
            r.push(((u + 32) as u8) as char);
        } else {
            r.push(c);
        }
        proof {
            assert(s@.subrange(0, i + 1) == s@.subrange(0, i as int).push(s@[i as int]));
            assert(spec_ascii_lower(s@.subrange(0, i + 1)) == spec_ascii_lower(
                s@.subrange(0, i as int),
            ).push(spec_lower_char(s@[i as int])));
        }
        i = i + 1;
    }
    proof {
        assert(s@.subrange(0, n as int) == s@);
    }
    r
}

/// Copies a string, keeping its contents.
pub fn clone_string(s: &String) -> (r: String)
    ensures
        r@ == s@,
{
    String::from_str(s.as_str())
}

/// Copies a vector of strings, keeping its contents.
pub fn clone_strings(v: &Vec<String>) -> (r: Vec<String>)
    ensures
        r.deep_view() == v.deep_view(),
{
    let mut r: Vec<String> = Vec::new();
    let mut i: usize = 0;
    while i < v.len()
        invariant
            i <= v.len(),
            v.deep_view().len() == v@.len(),
            r.deep_view() =~= v.deep_view().take(i as int),
        decreases v.len() - i,
    {
        let ghost before = r.deep_view();
        r.push(clone_string(&v[i]));
        proof {
            assert(r.deep_view() =~= before.push(v.deep_view()[i as int]));
        }
        i = i + 1;
    }
    proof {
        assert(v.deep_view().take(v@.len() as int) =~= v.deep_view());
    }
    r
}

/// Whether a vector of strings holds one with the given contents.
pub fn contains_str(v: &Vec<String>, s: &str) -> (r: bool)
    ensures
        r == v.deep_view().contains(s@),
{
    let mut i: usize = 0;
    while i < v.len()
        invariant
            i <= v.len(),
            v.deep_view().len() == v@.len(),
            forall|j: int| 0 <= j < i ==> v.deep_view()[j] != s@,
        decreases v.len() - i,
    {
        if str_eq(v[i].as_str(), s) {
            proof {
                assert(v.deep_view()[i as int] == s@);
            }
            return true;
        }
        i = i + 1;
    }
    proof {
        assert(forall|j: int| 0 <= j < v.deep_view().len() ==> v.deep_view()[j] != s@);
    }
    false
}

/// An optional owned string, seen as an optional character sequence.
pub open spec fn opt_str_view(o: Option<String>) -> Option<Seq<char>> {
    match o {
        Some(s) => Some(s@),
        None => None,
    }
}

/// One step of the 64-bit FNV-1a hash.
pub open spec fn spec_fnv64_step(h: u64, c: char) -> u64 {
    (h ^ ((c as u32) as u64)).wrapping_mul(0x100000001b3u64)
}

/// FNV-1a folded over `s` starting from accumulator `h`.
pub open spec fn spec_fnv64_acc(s: Seq<char>, h: u64) -> u64
    decreases s.len(),
{
    if s.len() == 0 {
        h
    } else {
        spec_fnv64_acc(s.drop_first(), spec_fnv64_step(h, s.first()))
    }
}

/// The 64-bit FNV-1a hash of a character sequence.
pub open spec fn spec_fnv64(s: Seq<char>) -> u64 {
    spec_fnv64_acc(s, 0xcbf29ce484222325u64)
}

/// Computes the 64-bit FNV-1a hash of a string.
pub fn fnv64(s: &str) -> (r: u64)
    ensures
        r == spec_fnv64(s@),
{
    let n = s.unicode_len();
    let mut h: u64 = 0xcbf29ce484222325u64;
    let mut i: usize = 0;
    proof {
        assert(s@.skip(0) =~= s@);
    }
    while i < n
        invariant
            i <= n,
            n == s@.len(),
            spec_fnv64_acc(s@.skip(i as int), h) == spec_fnv64(s@),
        decreases n - i,
    {
        let c = s.get_char(i);
        proof {
            assert(s@.skip(i as int).first() == s@[i as int]);
            assert(s@.skip(i as int).drop_first() =~= s@.skip(i + 1));
        }
        h = (h ^ ((c as u32) as u64)).wrapping_mul(0x100000001b3u64);
        i = i + 1;
    }
    proof {
        assert(s@.skip(n as int) =~= Seq::<char>::empty());
    }
    h
}


/// The HTML escape of a text: the five characters HTML reserves, replaced
/// by their entities.
pub open spec fn spec_escape_html(s: Seq<char>) -> Seq<char>
    decreases s.len(),
{
    if s.len() == 0 {
        Seq::empty()
    } else {
        spec_escape_html(s.drop_last()) + (if s.last() == '&' {
            "&amp;"@
        } else if s.last() == '<' {
            "&lt;"@
        } else if s.last() == '>' {
            "&gt;"@
        } else if s.last() == '"' {
            "&quot;"@
        } else if s.last() == '\'' {
            "&#039;"@
        } else {
            seq![s.last()]
        })
    }
}

/// Escapes the characters HTML reserves.
pub fn escape_html(text: &str) -> (r: String)
    ensures
        r@ == spec_escape_html(text@),
{
    let n = text.unicode_len();
    let mut r = String::new();
    let mut i: usize = 0;
    proof {
        assert(spec_escape_html(text@.take(0)) =~= Seq::<char>::empty());
    }
    while i < n
        invariant
            i <= n,
            n == text@.len(),
            r@ == spec_escape_html(text@.take(i as int)),
        decreases n - i,
    {
        let c = text.get_char(i);
        if c == '&' {
            r.append("&amp;");
        } else if c == '<' {
            r.append("&lt;");
        } else if c == '>' {
            r.append("&gt;");
        } else if c == '"' {
            r.append("&quot;");
        } else if c == '\'' {
            r.append("&#039;");
        } else {
            r.push(c);
        }
        proof {
            assert(text@.take(i + 1).drop_last() =~= text@.take(i as int));
            assert(text@.take(i + 1).last() == text@[i as int]);
            let lc = text@[i as int];
            if !(lc == '&' || lc == '<' || lc == '>' || lc == '"' || lc == '\'') {
                assert(r@ =~= spec_escape_html(text@.take(i as int)) + seq![lc]);
            }
        }
        i = i + 1;
    }
    proof {
        assert(text@.take(n as int) =~= text@);
    }
    r
}

/// A label cut to a length: the text itself when it fits, else its first
/// characters with a three-dot ellipsis, inside the length.
pub open spec fn spec_truncate(s: Seq<char>, max_len: nat) -> Seq<char> {
    if s.len() <= max_len {
        s
    } else {
        s.take(max_len - 3) + "..."@
    }
}

/// Cuts a label to at most `max_len` characters, with an ellipsis when cut.
pub fn truncate(s: &str, max_len: usize) -> (r: String)
    requires
        max_len >= 3,
    ensures
        r@ == spec_truncate(s@, max_len as nat),
{
    let n = s.unicode_len();
    if n <= max_len {
        String::from_str(s)
    } else {
        let head = s.substring_char(0, max_len - 3);
        let mut r = String::from_str(head);
        r.append("...");
        proof {
            assert(s@.subrange(0, max_len - 3) =~= s@.take(max_len - 3));
        }
        r
    }
}

/// Whether `host` is `domain` itself or a subdomain of it: equal, or ending
/// with a dot followed by the domain.
pub open spec fn spec_host_in_scope(host: Seq<char>, domain: Seq<char>) -> bool {
    host == domain || (host.len() > domain.len() && host.subrange(
        host.len() - domain.len() - 1,
        host.len() as int,
    ) == seq!['.'] + domain)
}

/// Decides the subdomain rule: `host` equals `domain` or ends with `"." + domain`.
pub fn host_in_scope(host: &str, domain: &str) -> (r: bool)
    ensures
        r == spec_host_in_scope(host@, domain@),
{
    if str_eq(host, domain) {
        return true;
    }
    let hn = host.unicode_len();
    let dn = domain.unicode_len();
    if hn <= dn {
        proof {
            assert(host@ != domain@ ==> !spec_host_in_scope(host@, domain@));
        }
        return false;
    }
    let tail = host.substring_char(hn - dn - 1, hn);
    let dot_ok = tail.get_char(0) == '.';
    let rest = tail.substring_char(1, dn + 1);
    let eq = str_eq(rest, domain);
    proof {
        if dot_ok && eq {
            assert(tail@ == seq!['.'] + domain@);
        } else {
            if host@.subrange(host@.len() - domain@.len() - 1, host@.len() as int) == seq!['.']
                + domain@ {
                assert(tail@[0] == '.');
                assert(tail@.subrange(1, domain@.len() as int + 1) == domain@);
            }
        }
    }
    dot_ok && eq
}

} // verus!
