//! Firmware versions: parsing of `major.minor.patch` strings, their order,
//! and the release metadata that the show server hands out.

use vstd::prelude::*;
use crate::text::{
    chars_of, ends_with_chars, parse_u32_chars, parse_u32_spec, split_chars, split_on,
    starts_with_chars, tail_chars, has_prefix, has_suffix, lemma_split_on_nonempty, unsigned_body,
    all_digits, digits_value, decimal, lemma_decimal, lemma_split_on_free, lemma_split_on_join,
    push_decimal, is_digit,
};

verus! {

/// The version this firmware was built as.
pub const FIRMWARE_VERSION: &'static str = "0.0.1";

/// A semantic version.
#[derive(Debug, Clone, Copy, PartialEq, Eq, Structural)]
pub struct Version {
    pub major: u32,
    pub minor: u32,
    pub patch: u32,
}

/// Why a version string was refused.
#[derive(Debug, Clone, Copy, PartialEq, Eq, Structural)]
pub enum VersionError {
    /// The text does not have exactly three dot-separated fields.
    InvalidFormat,
    /// The first field is not a `u32`.
    InvalidMajor,
    /// The second field is not a `u32`.
    InvalidMinor,
    /// The third field is not a `u32`.
    InvalidPatch,
}

/// Strict lexicographic order on `(major, minor, patch)`.
pub open spec fn version_gt(a: Version, b: Version) -> bool {
    ||| a.major > b.major
    ||| (a.major == b.major && a.minor > b.minor)
    ||| (a.major == b.major && a.minor == b.minor && a.patch > b.patch)
}

/// The tag prefix that release names carry.
pub open spec fn release_prefix() -> Seq<char> {
    seq!['e', 's', 'p', '3', '2', '-', 'v']
}

/// `s` with every leading copy of the release prefix removed.
pub open spec fn strip_release_prefix(s: Seq<char>) -> Seq<char>
    decreases s.len(),
{
    if has_prefix(s, release_prefix()) {
        strip_release_prefix(s.subrange(7, s.len() as int))
    } else {
        s
    }
}

/// The `major.minor.patch` part of a version string: release prefixes and
/// then one leading `v` removed.
pub open spec fn version_text(s: Seq<char>) -> Seq<char> {
    let t = strip_release_prefix(s);
    if t.len() > 0 && t[0] == 'v' {
        t.drop_first()
    } else {
        t
    }
}

/// What parsing `s` as a version gives.
pub open spec fn parse_version_spec(s: Seq<char>) -> Result<Version, VersionError> {
    let parts = split_on(version_text(s), '.');
    if parts.len() != 3 {
        Err(VersionError::InvalidFormat)
    } else if parse_u32_spec(parts[0]) is None {
        Err(VersionError::InvalidMajor)
    } else if parse_u32_spec(parts[1]) is None {
        Err(VersionError::InvalidMinor)
    } else if parse_u32_spec(parts[2]) is None {
        Err(VersionError::InvalidPatch)
    } else {
        Ok(
            Version {
                major: parse_u32_spec(parts[0])->0,
                minor: parse_u32_spec(parts[1])->0,
                patch: parse_u32_spec(parts[2])->0,
            },
        )
    }
}

/// A version written as `major.minor.patch`, in decimal.
pub open spec fn version_string(v: Version) -> Seq<char> {
    decimal(v.major as nat) + seq!['.'] + decimal(v.minor as nat) + seq!['.'] + decimal(
        v.patch as nat,
    )
}

/// The version that `FIRMWARE_VERSION` denotes.
pub open spec fn current_version() -> Version {
    Version { major: 0, minor: 0, patch: 1 }
}

fn release_prefix_chars() -> (v: Vec<char>)
    ensures
        v@ == release_prefix(),
{
    let v: Vec<char> = vec!['e', 's', 'p', '3', '2', '-', 'v'];
    assert(v@ =~= release_prefix());
    v
}

/// Removes the release prefixes and the optional `v` of a version string.
fn version_text_chars(s: &str) -> (t: Vec<char>)
    ensures
        t@ == version_text(s@),
{
    let prefix = release_prefix_chars();
    let mut cur = chars_of(s);
    while starts_with_chars(&cur, &prefix)
        invariant
            prefix@ == release_prefix(),
            strip_release_prefix(cur@) == strip_release_prefix(s@),
        decreases cur@.len(),
    {
        cur = tail_chars(&cur, 7);
    }
    if cur.len() > 0 && cur[0] == 'v' {
        let t = tail_chars(&cur, 1);
        assert(t@ =~= cur@.drop_first());
        t
    } else {
        cur
    }
}

impl Version {
    /// Parses a version such as `0.1.1`, `v0.1.1` or `esp32-v0.1.1`.
    pub fn parse(s: &str) -> (r: Result<Version, VersionError>)
        ensures
            r == parse_version_spec(s@),
    {
        let text = version_text_chars(s);
        let parts = split_chars(&text, '.');
        proof {
            lemma_split_on_nonempty(text@, '.');
        }
        assert(parts@.len() == split_on(text@, '.').len());
        if parts.len() != 3 {
            return Err(VersionError::InvalidFormat);
        }
        assert(parts@[0]@ == split_on(text@, '.')[0]);
        assert(parts@[1]@ == split_on(text@, '.')[1]);
        assert(parts@[2]@ == split_on(text@, '.')[2]);
        let major = match parse_u32_chars(&parts[0]) {
            Some(v) => v,
            None => return Err(VersionError::InvalidMajor),
        };
        let minor = match parse_u32_chars(&parts[1]) {
            Some(v) => v,
            None => return Err(VersionError::InvalidMinor),
        };
        let patch = match parse_u32_chars(&parts[2]) {
            Some(v) => v,
            None => return Err(VersionError::InvalidPatch),
        };
        Ok(Version { major, minor, patch })
    }

    /// The version of the running firmware.
    pub fn current() -> (r: Result<Version, VersionError>)
        ensures
            r == parse_version_spec(FIRMWARE_VERSION@),
            r == Ok::<Version, VersionError>(current_version()),
    {
        proof {
            lemma_current_version_parses();
        }
        Self::parse(FIRMWARE_VERSION)
    }

    /// The version written as `major.minor.patch`.
    pub fn to_version_string(&self) -> (r: String)
        ensures
            r@ == version_string(*self),
    {
        let mut r = String::new();
        push_decimal(&mut r, self.major as u64);
        r.push('.');
        push_decimal(&mut r, self.minor as u64);
        r.push('.');
        push_decimal(&mut r, self.patch as u64);
        assert(r@ =~= version_string(*self));
        r
    }

    /// Whether this version is newer than `other`.
    pub fn is_newer_than(&self, other: &Version) -> (r: bool)
        ensures
            r == version_gt(*self, *other),
    {
        if self.major != other.major {
            self.major > other.major
        } else if self.minor != other.minor {
            self.minor > other.minor
        } else {
            self.patch > other.patch
        }
    }
}

/// The decimal text of a number reads back as that number.
pub proof fn lemma_parses_decimal(n: u32)
    ensures
        parse_u32_spec(decimal(n as nat)) == Some(n),
        decimal(n as nat).len() >= 1,
        is_digit(decimal(n as nat)[0]),
        forall|i: int| 0 <= i < decimal(n as nat).len() ==> decimal(n as nat)[i] != '.',
{
    let d = decimal(n as nat);
    lemma_decimal(n as nat);
    assert(is_digit(d[0]));
    assert(unsigned_body(d) == d);
    assert forall|i: int| 0 <= i < d.len() implies d[i] != '.' by {
        assert(is_digit(d[i]));
    }
}

/// "Newer than" is a strict total order: never between a version and
/// itself, transitive, and between two different versions exactly one way.
pub proof fn lemma_version_order(a: Version, b: Version, c: Version)
    ensures
        !version_gt(a, a),
        version_gt(a, b) && version_gt(b, c) ==> version_gt(a, c),
        a != b ==> (version_gt(a, b) <==> !version_gt(b, a)),
        a == b ==> !version_gt(a, b) && !version_gt(b, a),
{
}

/// The number a version stands for when its three parts are read as the
/// digits of one number in base 2^32: major first, then minor, then patch.
pub open spec fn version_rank(v: Version) -> int {
    v.major * 0x1_0000_0000 * 0x1_0000_0000 + v.minor * 0x1_0000_0000 + v.patch
}

/// "Newer than" is the numeric order of major, then minor, then patch:
/// a version is newer exactly when its rank is greater, so in particular a
/// larger major wins whatever the rest, and with equal majors a larger minor
/// wins (0.10.0 is newer than 0.9.0).
pub proof fn lemma_newer_is_numeric_order(a: Version, b: Version)
    ensures
        version_gt(a, b) <==> version_rank(a) > version_rank(b),
        a.major > b.major ==> version_gt(a, b),
        a.major == b.major && a.minor > b.minor ==> version_gt(a, b),
        a.major == b.major && a.minor == b.minor && a.patch > b.patch ==> version_gt(a, b),
        a.major == b.major && a.minor == b.minor && a.patch == b.patch ==> !version_gt(a, b),
{
    let m: int = 0x1_0000_0000;
    assert(version_rank(a) == (a.major * m + a.minor) * m + a.patch);
    assert(version_rank(b) == (b.major * m + b.minor) * m + b.patch);
    assert(a.major > b.major ==> a.major * m * m >= b.major * m * m + m * m) by (nonlinear_arith)
        requires
            m == 0x1_0000_0000,
    ;
    assert(a.major < b.major ==> b.major * m * m >= a.major * m * m + m * m) by (nonlinear_arith)
        requires
            m == 0x1_0000_0000,
    ;
    assert(a.minor > b.minor ==> a.minor * m >= b.minor * m + m) by (nonlinear_arith)
        requires
            m == 0x1_0000_0000,
    ;
    assert(a.minor < b.minor ==> b.minor * m >= a.minor * m + m) by (nonlinear_arith)
        requires
            m == 0x1_0000_0000,
    ;
    assert(a.major == b.major ==> a.major * m * m == b.major * m * m);
    assert(0 <= a.minor * m <= 0xffff_ffff * m) by (nonlinear_arith)
        requires
            m == 0x1_0000_0000,
            0 <= a.minor <= 0xffff_ffff,
    ;
    assert(0 <= b.minor * m <= 0xffff_ffff * m) by (nonlinear_arith)
        requires
            m == 0x1_0000_0000,
            0 <= b.minor <= 0xffff_ffff,
    ;
}

/// A version written out parses back to itself.
pub proof fn lemma_version_round_trip(v: Version)
    ensures
        parse_version_spec(version_string(v)) == Ok::<Version, VersionError>(v),
{
    let a = decimal(v.major as nat);
    let b = decimal(v.minor as nat);
    let c = decimal(v.patch as nat);
    lemma_parses_decimal(v.major);
    lemma_parses_decimal(v.minor);
    lemma_parses_decimal(v.patch);
    let s = version_string(v);
    assert(s[0] == a[0]);
    assert(!has_prefix(s, release_prefix())) by {
        if has_prefix(s, release_prefix()) {
            assert(s.subrange(0, 7)[0] == s[0]);
            assert(release_prefix()[0] == 'e');
        }
    }
    assert(strip_release_prefix(s) == s);
    assert(version_text(s) == s);
    lemma_split_on_free(a, '.');
    lemma_split_on_join(a, b, '.');
    lemma_split_on_join(a + seq!['.'] + b, c, '.');
    assert(split_on(s, '.') =~= seq![a, b, c]);
}

proof fn lemma_current_version_parses()
    ensures
        parse_version_spec(FIRMWARE_VERSION@) == Ok::<Version, VersionError>(current_version()),
{
    reveal_strlit("0.0.1");
    let s = FIRMWARE_VERSION@;
    assert(s =~= seq!['0', '.', '0', '.', '1']);
    assert(release_prefix().len() == 7);
    assert(!has_prefix(s, release_prefix()));
    assert(version_text(s) == s);
    let e = Seq::<char>::empty();
    let z = seq!['0'];
    let o = seq!['1'];
    assert(s.drop_last() =~= seq!['0', '.', '0', '.']);
    assert(s.drop_last().drop_last() =~= seq!['0', '.', '0']);
    assert(s.drop_last().drop_last().drop_last() =~= seq!['0', '.']);
    assert(s.drop_last().drop_last().drop_last().drop_last() =~= seq!['0']);
    assert(seq!['0'].drop_last() =~= e);
    assert(split_on(e, '.') == seq![e]);
    assert(split_on(z, '.') =~= seq![z]);
    assert(split_on(seq!['0', '.'], '.') =~= seq![z, e]);
    assert(split_on(seq!['0', '.', '0'], '.') =~= seq![z, z]);
    assert(split_on(seq!['0', '.', '0', '.'], '.') =~= seq![z, z, e]);
    assert(split_on(s, '.') =~= seq![z, z, o]);
    assert(z.drop_last() =~= e);
    assert(o.drop_last() =~= e);
    assert(unsigned_body(z) == z);
    assert(unsigned_body(o) == o);
    assert(all_digits(z));
    assert(all_digits(o));
    assert(z.last() == '0');
    assert(o.last() == '1');
    assert(digits_value(e) == 0);
    assert(digits_value(z) == 0);
    assert(digits_value(o) == 1);
}

/// One downloadable file of a release.
pub struct GitHubAsset {
    pub name: String,
    pub download_url: String,
    pub size: u64,
}

/// Firmware release metadata from the show server.
pub struct GitHubRelease {
    pub version: String,
    pub name: String,
    pub assets: Vec<GitHubAsset>,
}

/// Whether a file name is a firmware image.
pub open spec fn is_firmware_name(name: Seq<char>) -> bool {
    has_suffix(name, seq!['.', 'b', 'i', 'n'])
}

/// The index of the first asset whose name is a firmware image.
pub open spec fn first_firmware_index(assets: Seq<GitHubAsset>) -> Option<int> {
    if exists|i: int| 0 <= i < assets.len() && is_firmware_name(#[trigger] assets[i].name@) {
        Some(
            choose|i: int|
                0 <= i < assets.len() && is_firmware_name(#[trigger] assets[i].name@) && forall|
                    j: int,
                | 0 <= j < i ==> !is_firmware_name(#[trigger] assets[j].name@),
        )
    } else {
        None
    }
}

impl GitHubRelease {
    /// The first asset whose name ends in `.bin`.
    pub fn get_firmware_asset(&self) -> (r: Option<&GitHubAsset>)
        ensures
            match r {
                None => forall|i: int|
                    0 <= i < self.assets@.len() ==> !is_firmware_name(
                        #[trigger] self.assets@[i].name@,
                    ),
                Some(a) => exists|i: int|
                    0 <= i < self.assets@.len() && is_firmware_name(self.assets@[i].name@) && (
                    forall|j: int|
                        0 <= j < i ==> !is_firmware_name(#[trigger] self.assets@[j].name@))
                        && *a == #[trigger] self.assets@[i],
            },
    {
        let suffix: Vec<char> = vec!['.', 'b', 'i', 'n'];
        assert(suffix@ =~= seq!['.', 'b', 'i', 'n']);
        let mut i: usize = 0;
        while i < self.assets.len()
            invariant
                i <= self.assets@.len(),
                suffix@ == seq!['.', 'b', 'i', 'n'],
                forall|j: int| 0 <= j < i ==> !is_firmware_name(#[trigger] self.assets@[j].name@),
            decreases self.assets@.len() - i,
        {
            let name = chars_of(self.assets[i].name.as_str());
            if ends_with_chars(&name, &suffix) {
                let a = &self.assets[i];
                assert(*a == self.assets@[i as int]);
                return Some(a);
            }
            i = i + 1;
        }
        None
    }

    /// The version that this release names.
    pub fn version(&self) -> (r: Result<Version, VersionError>)
        ensures
            r == parse_version_spec(self.version@),
    {
        Version::parse(self.version.as_str())
    }
}

/// Looks for a newer release; no release source is wired in, so there is never one.
pub fn check_github_for_updates() -> (r: Result<Option<GitHubRelease>, VersionError>)
    ensures
        r is Ok && r->Ok_0 is None,
{
    Ok(None)
}

/// Whether `latest_version` is newer than the running firmware.
pub fn is_update_available(latest_version: &Version) -> (r: Result<bool, VersionError>)
    ensures
        r == Ok::<bool, VersionError>(version_gt(*latest_version, current_version())),
{
    let current = Version::current()?;
    Ok(latest_version.is_newer_than(&current))
}

} // verus!
