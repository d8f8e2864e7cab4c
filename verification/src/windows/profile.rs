//! Stable, sanitized AppContainer profile names.

use vstd::prelude::*;

use vstd::string::StringSliceAdditionalSpecFns;

use crate::error::{Error, Result};
use vstd::string::StrSliceExecFns;

use crate::text::{ascii_lower, chars_of, push_str, string_of, trim_char, trim_char_chars};

verus! {

/// Prefix of every profile name.
pub const PROFILE_PREFIX: &'static str = "heel";

/// Longest profile name that Windows accepts.
pub const PROFILE_MAX_LEN: usize = 64;

/// Number of hexadecimal digits of the digest kept in a profile name.
pub const PROFILE_HASH_HEX_LEN: usize = 32;

/// What `char::to_lowercase` yields for `c`.
pub uninterp spec fn spec_char_to_lowercase(c: char) -> Seq<char>;

/// Calls `char::to_lowercase` and collects what it yields. The contract names the
/// result and adds the one fact the standard library documents for ASCII: an ASCII
/// character maps to its ASCII lower case.
#[verifier::external_body]
fn char_to_lowercase(c: char) -> (r: Vec<char>)
    ensures
        r@ == spec_char_to_lowercase(c),
        (c as u32) < 128 ==> r@ == seq![ascii_lower(c)],
{
    c.to_lowercase().collect()
}

/// SHA-256 digest of `data`.
pub uninterp spec fn spec_sha256(data: Seq<u8>) -> Seq<u8>;

/// Calls `sha2::Sha256::digest`; its result is 32 bytes long.
#[verifier::external_body]
fn sha256(data: &[u8]) -> (r: Vec<u8>)
    ensures
        r@ == spec_sha256(data@),
        r@.len() == 32,
{
    <sha2::Sha256 as sha2::Digest>::digest(data).to_vec()
}

/// The characters of `s` after `char::to_lowercase`.
pub open spec fn lowercase_all(s: Seq<char>) -> Seq<char>
    decreases s.len(),
{
    if s.len() == 0 {
        seq![]
    } else {
        lowercase_all(s.drop_last()) + spec_char_to_lowercase(s.last())
    }
}

/// Characters that survive in a profile slug.
pub open spec fn slug_keeps(c: char) -> bool {
    ('a' <= c && c <= 'z') || ('0' <= c && c <= '9')
}

/// `s` with every maximal run of characters that are not kept replaced by one `-`.
pub open spec fn dashed(s: Seq<char>) -> Seq<char>
    decreases s.len(),
{
    if s.len() == 0 {
        seq![]
    } else {
        let r = dashed(s.drop_last());
        let c = s.last();
        if slug_keeps(c) {
            r.push(c)
        } else if r.len() > 0 && r.last() == '-' {
            r
        } else {
            r.push('-')
        }
    }
}

/// The slug of an application id: lower-cased, runs of other characters as
/// single dashes, no dash at either end.
pub open spec fn spec_slug(app_id: Seq<char>) -> Seq<char> {
    trim_char(dashed(lowercase_all(app_id)), '-')
}

/// One lowercase hexadecimal digit.
pub open spec fn hex_digit(n: u8) -> char {
    if n < 10 {
        (('0' as u8) + n) as char
    } else {
        (('a' as u8) + n - 10) as char
    }
}

/// Lowercase hexadecimal text of `bytes`, two digits per byte.
pub open spec fn hex_lower(bytes: Seq<u8>) -> Seq<char>
    decreases bytes.len(),
{
    if bytes.len() == 0 {
        seq![]
    } else {
        hex_lower(bytes.drop_last()) + seq![
            hex_digit(bytes.last() / 16),
            hex_digit(bytes.last() % 16),
        ]
    }
}

/// The bytes hashed for a profile name: UTF-8 of the app id, a zero byte, UTF-8 of the seed.
pub open spec fn profile_hash_input(app_id: &str, seed: &str) -> Seq<u8> {
    app_id.spec_bytes() + seq![0u8] + seed.spec_bytes()
}

/// The profile name for `app_id` and `seed`: `heel.<slug>.<suffix>`, where the
/// suffix is the first 32 hexadecimal digits of the SHA-256 digest of the hash
/// input and the slug is cut so that the name fits in 64 characters.
pub open spec fn spec_profile_name(app_id: &str, seed: &str) -> Seq<char> {
    let slug = spec_slug(app_id@);
    let suffix = hex_lower(spec_sha256(profile_hash_input(app_id, seed)).take(16));
    let candidate = "heel."@ + slug + "."@ + suffix;
    if candidate.len() <= 64 {
        candidate
    } else {
        "heel."@ + slug.take(64 - 38) + "."@ + suffix
    }
}

fn hex_digit_of(n: u8) -> (c: char)
    requires
        n < 16,
    ensures
        c == hex_digit(n),
{
    if n < 10 {
        ('0' as u8 + n) as char
    } else {
        ('a' as u8 + n - 10) as char
    }
}

/// A validated AppContainer profile name.
#[derive(Debug, Clone, PartialEq, Eq)]
pub struct ProfileName(String);

impl ProfileName {
    pub closed spec fn view(&self) -> Seq<char> {
        self.0@
    }

    /// The name's text.
    pub fn as_str(&self) -> (s: &str)
        ensures
            s@ == self.view(),
    {
        self.0.as_str()
    }
}

/// Sanitizes an application id into a slug; an id that sanitizes to nothing is
/// rejected.
pub fn slug(input: &str) -> (r: Result<String>)
    ensures
        match r {
            Ok(s) => s@ == spec_slug(input@) && s@.len() > 0,
            Err(e) => spec_slug(input@).len() == 0 && (e matches Error::ConfigError(m) && m@
                == "AppContainer profile app id cannot be empty after sanitization"@),
        },
{
    let v = chars_of(input);
    let mut out: Vec<char> = Vec::new();
    let mut i: usize = 0;
    while i < v.len()
        invariant
            i <= v.len(),
            v@ == input@,
            out@ == dashed(lowercase_all(v@.take(i as int))),
        decreases v.len() - i,
    {
        let lower = char_to_lowercase(v[i]);
        proof {
            assert(v@.take(i + 1).drop_last() == v@.take(i as int));
        }
        let mut j: usize = 0;
        let ghost base = lowercase_all(v@.take(i as int));
        while j < lower.len()
            invariant
                j <= lower.len(),
                out@ == dashed(base + lower@.take(j as int)),
            decreases lower.len() - j,
        {
            let c = lower[j];
            proof {
                let s = base + lower@.take(j + 1);
                assert(s.drop_last() == base + lower@.take(j as int));
                assert(s.last() == c);
            }
            if ('a' <= c && c <= 'z') || ('0' <= c && c <= '9') {
                out.push(c);
            } else if out.len() > 0 && out[out.len() - 1] == '-' {
            } else {
                out.push('-');
            }
            j = j + 1;
        }
        proof {
            assert(lower@.take(lower.len() as int) == lower@);
        }
        i = i + 1;
    }
    proof {
        assert(v@.take(v.len() as int) == v@);
    }
    let trimmed = trim_char_chars(&out, '-');
    if trimmed.len() == 0 {
        return Err(
            Error::ConfigError(
                String::from_str("AppContainer profile app id cannot be empty after sanitization"),
            ),
        );
    }
    Ok(string_of(&trimmed))
}

fn push_bytes(out: &mut Vec<u8>, b: &[u8])
    ensures
        final(out)@ == old(out)@ + b@,
{
    let mut i: usize = 0;
    while i < b.len()
        invariant
            i <= b.len(),
            out@ == old(out)@ + b@.take(i as int),
        decreases b.len() - i,
    {
        out.push(b[i]);
        i = i + 1;
        assert(b@.take(i as int) == b@.take(i - 1) + seq![b@[i - 1]]);
    }
    assert(b@.take(b.len() as int) == b@);
}

/// The profile name for `app_id` and `seed` (see `spec_profile_name`); an
/// application id without letters or digits is rejected.
pub fn profile_name(app_id: &str, seed: &str) -> (r: Result<ProfileName>)
    ensures
        match r {
            Ok(n) => n.view() == spec_profile_name(app_id, seed) && n.view().len() <= 64
                && n.view().len() >= 39 && n.view().take(5) == "heel."@,
            Err(e) => spec_slug(app_id@).len() == 0 && (e matches Error::ConfigError(m) && m@
                == "AppContainer profile app id cannot be empty after sanitization"@),
        },
{
    let app_slug = slug(app_id)?;
    let mut data: Vec<u8> = Vec::new();
    push_bytes(&mut data, app_id.as_bytes());
    data.push(0u8);
    push_bytes(&mut data, seed.as_bytes());
    proof {
        assert(data@ == profile_hash_input(app_id, seed));
    }
    let hash = sha256(data.as_slice());
    let mut suffix: Vec<char> = Vec::new();
    let mut k: usize = 0;
    while k < 16
        invariant
            k <= 16,
            hash@.len() == 32,
            suffix@ == hex_lower(hash@.take(k as int)),
        decreases 16 - k,
    {
        let b = hash[k];
        suffix.push(hex_digit_of(b / 16));
        suffix.push(hex_digit_of(b % 16));
        proof {
            assert(hash@.take(k + 1).drop_last() == hash@.take(k as int));
        }
        k = k + 1;
    }
    let slug_chars = chars_of(app_slug.as_str());
    let mut name: Vec<char> = Vec::new();
    push_str(&mut name, PROFILE_PREFIX);
    name.push('.');
    proof {
        reveal_strlit("heel");
        reveal_strlit("heel.");
        reveal_strlit(".");
    }
    let limit: usize = PROFILE_MAX_LEN - (PROFILE_PREFIX.unicode_len() + 1 + 1
        + PROFILE_HASH_HEX_LEN);
    assert(limit == 26);
    let take = if slug_chars.len() <= limit {
        slug_chars.len()
    } else {
        limit
    };
    let mut i: usize = 0;
    while i < take
        invariant
            i <= take <= slug_chars.len(),
            name@ == "heel."@ + slug_chars@.take(i as int),
        decreases take - i,
    {
        name.push(slug_chars[i]);
        i = i + 1;
        assert(slug_chars@.take(i as int) == slug_chars@.take(i - 1) + seq![slug_chars@[i - 1]]);
    }
    name.push('.');
    let mut j: usize = 0;
    while j < suffix.len()
        invariant
            j <= suffix.len(),
            name@ == "heel."@ + slug_chars@.take(take as int) + "."@ + suffix@.take(j as int),
        decreases suffix.len() - j,
    {
        name.push(suffix[j]);
        j = j + 1;
        assert(suffix@.take(j as int) == suffix@.take(j - 1) + seq![suffix@[j - 1]]);
    }
    proof {
        assert(suffix@.take(suffix.len() as int) == suffix@);
        assert(hash@.take(16) == spec_sha256(profile_hash_input(app_id, seed)).take(16));
        lemma_hex_len(hash@.take(16));
        if slug_chars.len() <= limit {
            assert(slug_chars@.take(take as int) == slug_chars@);
        }
        assert(suffix@.len() == 32);
        assert(name@.len() == 5 + take + 1 + 32);
        assert(name@.take(5) =~= "heel."@);
    }
    Ok(ProfileName(string_of(&name)))
}

proof fn lemma_hex_len(b: Seq<u8>)
    ensures
        hex_lower(b).len() == 2 * b.len(),
    decreases b.len(),
{
    if b.len() > 0 {
        lemma_hex_len(b.drop_last());
    }
}

} // verus!
