use vstd::prelude::*;

verus! {

/// One dot-separated identifier of a pre-release tag: purely numeric
/// identifiers order numerically and before alphanumeric ones.
#[derive(Debug, Clone)]
pub enum PreId {
    Num(u64),
    Alpha(String),
}

/// A semantic version: `major.minor.patch` with an optional pre-release
/// tag (build metadata carries no ordering weight and is not modelled).
#[derive(Debug, Clone)]
pub struct Version {
    pub major: u64,
    pub minor: u64,
    pub patch: u64,
    pub pre: Vec<PreId>,
}

/// Strict lexicographic order on character sequences.
pub open spec fn spec_lex_lt(a: Seq<char>, b: Seq<char>) -> bool
    decreases a.len(),
{
    if b.len() == 0 {
        false
    } else if a.len() == 0 {
        true
    } else if a[0] != b[0] {
        a[0] < b[0]
    } else {
        spec_lex_lt(a.skip(1), b.skip(1))
    }
}

/// The order of two pre-release identifiers: -1, 0 or 1.
pub open spec fn spec_id_cmp(x: PreId, y: PreId) -> int {
    match (x, y) {
        (PreId::Num(a), PreId::Num(b)) => if a < b {
            -1
        } else if a == b {
            0
        } else {
            1int
        },
        (PreId::Num(_), PreId::Alpha(_)) => -1,
        (PreId::Alpha(_), PreId::Num(_)) => 1,
        (PreId::Alpha(a), PreId::Alpha(b)) => if spec_lex_lt(a@, b@) {
            -1
        } else if a@ == b@ {
            0
        } else {
            1int
        },
    }
}

/// The order of two pre-release tags: identifiers compare left to right,
/// and when one tag is a prefix of the other the shorter orders first.
pub open spec fn spec_ids_cmp(a: Seq<PreId>, b: Seq<PreId>) -> int
    decreases a.len(),
{
    if a.len() == 0 && b.len() == 0 {
        0
    } else if a.len() == 0 {
        -1
    } else if b.len() == 0 {
        1
    } else if spec_id_cmp(a[0], b[0]) != 0 {
        spec_id_cmp(a[0], b[0])
    } else {
        spec_ids_cmp(a.skip(1), b.skip(1))
    }
}

/// Semantic-version precedence as -1, 0 or 1: the numeric triple orders
/// first; at an equal triple a version with a pre-release tag orders
/// before the release, and two tags order by their identifiers.
pub open spec fn spec_version_cmp(a: Version, b: Version) -> int {
    if a.major != b.major {
        if a.major < b.major {
            -1
        } else {
            1int
        }
    } else if a.minor != b.minor {
        if a.minor < b.minor {
            -1
        } else {
            1int
        }
    } else if a.patch != b.patch {
        if a.patch < b.patch {
            -1
        } else {
            1int
        }
    } else if a.pre@.len() == 0 && b.pre@.len() == 0 {
        0
    } else if a.pre@.len() == 0 {
        1
    } else if b.pre@.len() == 0 {
        -1
    } else {
        spec_ids_cmp(a.pre@, b.pre@)
    }
}

/// Decides strict lexicographic order.
fn lex_lt(a: &str, b: &str) -> (r: bool)
    ensures
        r == spec_lex_lt(a@, b@),
{
    let ac = crate::text::chars_vec(a);
    let bc = crate::text::chars_vec(b);
    let an = ac.len();
    let bn = bc.len();
    let mut i: usize = 0;
    proof {
        assert(a@.skip(0) =~= a@);
        assert(b@.skip(0) =~= b@);
    }
    loop
        invariant
            an == a@.len(),
            bn == b@.len(),
            ac@ == a@,
            bc@ == b@,
            i <= an,
            i <= bn,
            spec_lex_lt(a@, b@) == spec_lex_lt(a@.skip(i as int), b@.skip(i as int)),
        decreases an - i,
    {
        if i >= bn {
            proof {
                assert(b@.skip(i as int).len() == 0);
            }
            return false;
        }
        if i >= an {
            proof {
                assert(a@.skip(i as int).len() == 0);
                assert(b@.skip(i as int).len() > 0);
            }
            return true;
        }
        let x = ac[i];
        let y = bc[i];
        proof {
            assert(a@.skip(i as int)[0] == a@[i as int]);
            assert(b@.skip(i as int)[0] == b@[i as int]);
            assert(a@.skip(i as int).skip(1) =~= a@.skip(i + 1));
            assert(b@.skip(i as int).skip(1) =~= b@.skip(i + 1));
        }
        if x != y {
            return x < y;
        }
        i = i + 1;
    }
}

/// Decides the order of two pre-release identifiers.
fn id_cmp(x: &PreId, y: &PreId) -> (r: i8)
    ensures
        r == spec_id_cmp(*x, *y),
{
    match (x, y) {
        (PreId::Num(a), PreId::Num(b)) => {
            if *a < *b {
                -1
            } else if *a == *b {
                0
            } else {
                1
            }
        },
        (PreId::Num(_), PreId::Alpha(_)) => -1,
        (PreId::Alpha(_), PreId::Num(_)) => 1,
        (PreId::Alpha(a), PreId::Alpha(b)) => {
            if lex_lt(a.as_str(), b.as_str()) {
                -1
            } else if crate::text::str_eq(a.as_str(), b.as_str()) {
                0
            } else {
                1
            }
        },
    }
}

/// Decides the order of two pre-release tags.
fn ids_cmp(a: &Vec<PreId>, b: &Vec<PreId>) -> (r: i8)
    ensures
        r == spec_ids_cmp(a@, b@),
{
    let an = a.len();
    let bn = b.len();
    let mut i: usize = 0;
    proof {
        assert(a@.skip(0) =~= a@);
        assert(b@.skip(0) =~= b@);
    }
    loop
        invariant
            an == a@.len(),
            bn == b@.len(),
            i <= an,
            i <= bn,
            spec_ids_cmp(a@, b@) == spec_ids_cmp(a@.skip(i as int), b@.skip(i as int)),
        decreases an - i,
    {
        if i >= an && i >= bn {
            return 0;
        }
        if i >= an {
            return -1;
        }
        if i >= bn {
            return 1;
        }
        proof {
            assert(a@.skip(i as int)[0] == a@[i as int]);
            assert(b@.skip(i as int)[0] == b@[i as int]);
            assert(a@.skip(i as int).skip(1) =~= a@.skip(i + 1));
            assert(b@.skip(i as int).skip(1) =~= b@.skip(i + 1));
        }
        let c = id_cmp(&a[i], &b[i]);
        if c != 0 {
            return c;
        }
        i = i + 1;
    }
}

impl Version {
    /// A version without a pre-release tag.
    pub fn release(major: u64, minor: u64, patch: u64) -> (r: Version)
        ensures
            r.major == major,
            r.minor == minor,
            r.patch == patch,
            r.pre@.len() == 0,
    {
        Version { major, minor, patch, pre: Vec::new() }
    }

    /// Semantic-version precedence against another version.
    pub fn cmp_precedence(&self, other: &Version) -> (r: i8)
        ensures
            r == spec_version_cmp(*self, *other),
    {
        if self.major != other.major {
            if self.major < other.major {
                -1
            } else {
                1
            }
        } else if self.minor != other.minor {
            if self.minor < other.minor {
                -1
            } else {
                1
            }
        } else if self.patch != other.patch {
            if self.patch < other.patch {
                -1
            } else {
                1
            }
        } else if self.pre.len() == 0 && other.pre.len() == 0 {
            0
        } else if self.pre.len() == 0 {
            1
        } else if other.pre.len() == 0 {
            -1
        } else {
            ids_cmp(&self.pre, &other.pre)
        }
    }
}

/// Whether an available release is worth updating to: it must order after
/// the current version; a full release always qualifies then, while a
/// pre-release qualifies only as a newer pre-release of the very cycle
/// the current pre-release belongs to.
pub open spec fn spec_should_update(current: Version, to: Version) -> bool {
    if spec_version_cmp(to, current) <= 0 {
        false
    } else if to.pre@.len() == 0 {
        true
    } else if current.pre@.len() > 0 {
        to.major == current.major && to.minor == current.minor
    } else {
        false
    }
}

/// Decides whether to offer an update from `current_version` to
/// `to_version`.
pub fn should_update_to_version(current_version: &Version, to_version: &Version) -> (r: bool)
    ensures
        r == spec_should_update(*current_version, *to_version),
{
    if to_version.cmp_precedence(current_version) <= 0 {
        return false;
    }
    if to_version.pre.len() == 0 {
        return true;
    }
    if current_version.pre.len() > 0 {
        return to_version.major == current_version.major && to_version.minor
            == current_version.minor;
    }
    false
}

} // verus!
