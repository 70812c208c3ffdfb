//! Standard revisions and versioned names.

use vstd::prelude::*;

verus! {

/// A revision of the standard a device can conform to, oldest first.
#[derive(Clone, Copy, Debug, PartialEq, Eq, Structural)]
pub enum CLVersion {
    Cl1_0,
    Cl1_1,
    Cl1_2,
    Cl2_0,
    Cl2_1,
    Cl2_2,
    Cl3_0,
}

/// A name together with the packed version it was introduced or is supported at.
#[derive(Debug)]
pub struct NameVersion {
    pub version: u32,
    pub name: String,
}

/// The packed form of `major.minor.patch`: ten bits, ten bits, twelve bits.
pub open spec fn spec_mk_cl_version(major: u32, minor: u32, patch: u32) -> int {
    major * 0x40_0000 + minor * 0x1000 + patch
}

/// Packs a version number.
pub fn mk_cl_version(major: u32, minor: u32, patch: u32) -> (v: u32)
    requires
        major < 1024,
        minor < 1024,
        patch < 4096,
    ensures
        v == spec_mk_cl_version(major, minor, patch),
{
    major * 0x40_0000 + minor * 0x1000 + patch
}

impl CLVersion {
    /// Position in the order of revisions.
    pub open spec fn rank(self) -> int {
        match self {
            CLVersion::Cl1_0 => 0,
            CLVersion::Cl1_1 => 1,
            CLVersion::Cl1_2 => 2,
            CLVersion::Cl2_0 => 3,
            CLVersion::Cl2_1 => 4,
            CLVersion::Cl2_2 => 5,
            CLVersion::Cl3_0 => 6,
        }
    }

    /// The major number of the revision.
    pub open spec fn spec_major(self) -> u32 {
        match self {
            CLVersion::Cl1_0 | CLVersion::Cl1_1 | CLVersion::Cl1_2 => 1,
            CLVersion::Cl2_0 | CLVersion::Cl2_1 | CLVersion::Cl2_2 => 2,
            CLVersion::Cl3_0 => 3,
        }
    }

    /// The minor number of the revision.
    pub open spec fn spec_minor(self) -> u32 {
        match self {
            CLVersion::Cl1_0 | CLVersion::Cl2_0 | CLVersion::Cl3_0 => 0,
            CLVersion::Cl1_1 | CLVersion::Cl2_1 => 1,
            CLVersion::Cl1_2 | CLVersion::Cl2_2 => 2,
        }
    }

    /// The revision named `major.minor`, if there is one.
    pub open spec fn spec_from_parts(major: u32, minor: u32) -> Option<CLVersion> {
        if major == 1 && minor == 0 {
            Some(CLVersion::Cl1_0)
        } else if major == 1 && minor == 1 {
            Some(CLVersion::Cl1_1)
        } else if major == 1 && minor == 2 {
            Some(CLVersion::Cl1_2)
        } else if major == 2 && minor == 0 {
            Some(CLVersion::Cl2_0)
        } else if major == 2 && minor == 1 {
            Some(CLVersion::Cl2_1)
        } else if major == 2 && minor == 2 {
            Some(CLVersion::Cl2_2)
        } else if major == 3 && minor == 0 {
            Some(CLVersion::Cl3_0)
        } else {
            None
        }
    }

    /// The major number of the revision.
    pub fn major(self) -> (m: u32)
        ensures
            m == self.spec_major(),
    {
        match self {
            CLVersion::Cl1_0 | CLVersion::Cl1_1 | CLVersion::Cl1_2 => 1,
            CLVersion::Cl2_0 | CLVersion::Cl2_1 | CLVersion::Cl2_2 => 2,
            CLVersion::Cl3_0 => 3,
        }
    }

    /// The minor number of the revision.
    pub fn minor(self) -> (m: u32)
        ensures
            m == self.spec_minor(),
    {
        match self {
            CLVersion::Cl1_0 | CLVersion::Cl2_0 | CLVersion::Cl3_0 => 0,
            CLVersion::Cl1_1 | CLVersion::Cl2_1 => 1,
            CLVersion::Cl1_2 | CLVersion::Cl2_2 => 2,
        }
    }

    /// The revision named `major.minor`, if there is one.
    pub fn from_parts(major: u32, minor: u32) -> (r: Option<CLVersion>)
        ensures
            r == Self::spec_from_parts(major, minor),
    {
        if major == 1 && minor == 0 {
            Some(CLVersion::Cl1_0)
        } else if major == 1 && minor == 1 {
            Some(CLVersion::Cl1_1)
        } else if major == 1 && minor == 2 {
            Some(CLVersion::Cl1_2)
        } else if major == 2 && minor == 0 {
            Some(CLVersion::Cl2_0)
        } else if major == 2 && minor == 1 {
            Some(CLVersion::Cl2_1)
        } else if major == 2 && minor == 2 {
            Some(CLVersion::Cl2_2)
        } else if major == 3 && minor == 0 {
            Some(CLVersion::Cl3_0)
        } else {
            None
        }
    }

    /// The packed version number of the revision, patch level zero.
    pub fn packed(self) -> (v: u32)
        ensures
            v == spec_mk_cl_version(self.spec_major(), self.spec_minor(), 0),
    {
        mk_cl_version(self.major(), self.minor(), 0)
    }

    /// Position in the order of revisions.
    pub fn index(self) -> (i: u8)
        ensures
            i == self.rank(),
    {
        match self {
            CLVersion::Cl1_0 => 0,
            CLVersion::Cl1_1 => 1,
            CLVersion::Cl1_2 => 2,
            CLVersion::Cl2_0 => 3,
            CLVersion::Cl2_1 => 4,
            CLVersion::Cl2_2 => 5,
            CLVersion::Cl3_0 => 6,
        }
    }

    /// Whether this revision is `other` or a later one.
    pub fn at_least(self, other: CLVersion) -> (b: bool)
        ensures
            b == (self.rank() >= other.rank()),
    {
        self.index() >= other.index()
    }

    /// The older of two revisions.
    pub fn oldest(self, other: CLVersion) -> (r: CLVersion)
        ensures
            r == (if self.rank() <= other.rank() {
                self
            } else {
                other
            }),
    {
        if self.index() <= other.index() {
            self
        } else {
            other
        }
    }
}

/// A revision is recovered from its own major and minor numbers.
pub proof fn lemma_version_parts_roundtrip(v: CLVersion)
    ensures
        CLVersion::spec_from_parts(v.spec_major(), v.spec_minor()) == Some(v),
{
}


/// The byte is an ASCII digit.
pub open spec fn is_digit(b: u8) -> bool {
    48 <= b <= 57
}

/// The number that the first `n` bytes spell in decimal, read as digits.
pub open spec fn digits_value(s: Seq<u8>, n: int) -> nat
    decreases n,
{
    if n <= 0 {
        0
    } else {
        digits_value(s, n - 1) * 10 + (s[n - 1] - 48) as nat
    }
}

/// Every byte is an ASCII digit.
pub open spec fn all_digits(s: Seq<u8>) -> bool {
    forall|i: int| 0 <= i < s.len() ==> is_digit(#[trigger] s[i])
}

/// The 32-bit number a text spells: an optional plus sign, then one or
/// more decimal digits whose value fits.
pub open spec fn spec_parse_u32(s: Seq<u8>) -> Option<u32> {
    let d = if s.len() > 0 && s[0] == 43 {
        s.skip(1)
    } else {
        s
    };
    if d.len() == 0 || !all_digits(d) || digits_value(d, d.len() as int) > u32::MAX {
        None
    } else {
        Some(digits_value(d, d.len() as int) as u32)
    }
}

/// Reading more digits never makes the number smaller.
pub proof fn lemma_digits_value_grows(s: Seq<u8>, n: int, m: int)
    requires
        0 <= n <= m <= s.len(),
        all_digits(s),
    ensures
        digits_value(s, n) <= digits_value(s, m),
    decreases m - n,
{
    if n < m {
        lemma_digits_value_grows(s, n, m - 1);
        assert(is_digit(s[m - 1]));
    }
}

/// Reads the 32-bit number a text spells.
pub fn parse_u32(s: &[u8]) -> (r: Option<u32>)
    ensures
        r == spec_parse_u32(s@),
{
    let start: usize = if s.len() > 0 && s[0] == 43 {
        1
    } else {
        0
    };
    let ghost d = if start == 1 {
        s@.skip(1)
    } else {
        s@
    };
    if s.len() == start {
        return None;
    }
    let mut value: u32 = 0;
    let mut i: usize = start;
    while i < s.len()
        invariant
            start <= i <= s@.len(),
            start <= 1,
            start == 1 <==> (s@.len() > 0 && s@[0] == 43),
            d == (if start == 1 {
                s@.skip(1)
            } else {
                s@
            }),
            d.len() == s@.len() - start,
            forall|j: int| 0 <= j < i - start ==> is_digit(#[trigger] d[j]),
            value == digits_value(d, i - start),
        decreases s@.len() - i,
    {
        let b = s[i];
        assert(d[i - start] == b);
        if b < 48 || b > 57 {
            assert(!is_digit(d[i - start]));
            return None;
        }
        let digit = (b - 48) as u32;
        let next = match value.checked_mul(10) {
            Some(v) => v.checked_add(digit),
            None => None,
        };
        match next {
            Some(v) => {
                value = v;
            },
            None => {
                proof {
                    assert(digits_value(d, i - start + 1) == value * 10 + digit);
                    if all_digits(d) {
                        lemma_digits_value_grows(d, i - start + 1, d.len() as int);
                    }
                }
                return None;
            },
        }
        i += 1;
    }
    Some(value)
}

/// The position of the first full stop at or after `from`, or the length.
pub open spec fn first_dot(s: Seq<u8>, from: int) -> int
    decreases s.len() - from,
{
    if from < 0 || from >= s.len() {
        s.len() as int
    } else if s[from] == 46 {
        from
    } else {
        first_dot(s, from + 1)
    }
}

/// The revision a text of the form `major.minor` names: the text is split
/// at its first full stop, both parts must spell 32-bit numbers, and the
/// two numbers must name a revision.
pub open spec fn spec_parse_version(s: Seq<u8>) -> Option<CLVersion> {
    let dot = first_dot(s, 0);
    if dot >= s.len() {
        None
    } else {
        match (spec_parse_u32(s.subrange(0, dot)), spec_parse_u32(s.subrange(dot + 1, s.len() as int))) {
            (Some(major), Some(minor)) => CLVersion::spec_from_parts(major, minor),
            _ => None,
        }
    }
}

/// Reads the revision a text of the form `major.minor` names.
pub fn parse_version(s: &Vec<u8>) -> (r: Option<CLVersion>)
    ensures
        r == spec_parse_version(s@),
{
    let mut dot: usize = 0;
    while dot < s.len() && s[dot] != 46
        invariant
            dot <= s@.len(),
            first_dot(s@, 0) == first_dot(s@, dot as int),
        decreases s@.len() - dot,
    {
        dot += 1;
    }
    if dot >= s.len() {
        return None;
    }
    let major = copy_range(s, 0, dot);
    let minor = copy_range(s, dot + 1, s.len());
    match (parse_u32(major.as_slice()), parse_u32(minor.as_slice())) {
        (Some(major), Some(minor)) => CLVersion::from_parts(major, minor),
        _ => None,
    }
}

/// Copies the bytes from position `from` up to position `to`.
pub fn copy_range(s: &Vec<u8>, from: usize, to: usize) -> (part: Vec<u8>)
    requires
        from <= to <= s@.len(),
    ensures
        part@ == s@.subrange(from as int, to as int),
{
    let mut part: Vec<u8> = Vec::new();
    let mut i: usize = from;
    while i < to
        invariant
            from <= i <= to <= s@.len(),
            part@ == s@.subrange(from as int, i as int),
        decreases to - i,
    {
        part.push(s[i]);
        proof {
            assert(s@.subrange(from as int, i + 1) == s@.subrange(from as int, i as int).push(
                s@[i as int],
            ));
        }
        i += 1;
    }
    part
}

} // verus!
