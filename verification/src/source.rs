//! The fixed enumeration of telemetry sources and the names under which the
//! query API addresses them.
use vstd::prelude::*;
use vstd::string::*;

verus! {

/// Identifier of one telemetry source; the set is fixed at build time.
#[derive(Clone, Copy, PartialEq, Eq, Structural, Debug, Hash)]
pub enum SourceId {
    Position,
    DatasetCatalog,
    PictureOfDay,
    NearEarthObjects,
    SpaceWeather,
    LaunchSchedule,
}

pub open spec fn source_count() -> int {
    6
}

impl SourceId {
    /// Dense index of this source, used to address per-source slots.
    pub open spec fn index_spec(self) -> int {
        match self {
            SourceId::Position => 0,
            SourceId::DatasetCatalog => 1,
            SourceId::PictureOfDay => 2,
            SourceId::NearEarthObjects => 3,
            SourceId::SpaceWeather => 4,
            SourceId::LaunchSchedule => 5,
        }
    }

    pub fn index(self) -> (i: usize)
        ensures
            i == self.index_spec(),
    {
        match self {
            SourceId::Position => 0,
            SourceId::DatasetCatalog => 1,
            SourceId::PictureOfDay => 2,
            SourceId::NearEarthObjects => 3,
            SourceId::SpaceWeather => 4,
            SourceId::LaunchSchedule => 5,
        }
    }

    /// The route segment under which the query API exposes this source.
    pub open spec fn name_spec(self) -> Seq<char> {
        match self {
            SourceId::Position => "iss"@,
            SourceId::DatasetCatalog => "osdr"@,
            SourceId::PictureOfDay => "apod"@,
            SourceId::NearEarthObjects => "neo"@,
            SourceId::SpaceWeather => "donki"@,
            SourceId::LaunchSchedule => "spacex"@,
        }
    }

    pub fn name(self) -> (r: &'static str)
        ensures
            r@ == self.name_spec(),
    {
        match self {
            SourceId::Position => "iss",
            SourceId::DatasetCatalog => "osdr",
            SourceId::PictureOfDay => "apod",
            SourceId::NearEarthObjects => "neo",
            SourceId::SpaceWeather => "donki",
            SourceId::LaunchSchedule => "spacex",
        }
    }
}

/// Which source a route segment names, if any.
pub open spec fn source_of_name(n: Seq<char>) -> Option<SourceId> {
    if n == "iss"@ {
        Some(SourceId::Position)
    } else if n == "osdr"@ {
        Some(SourceId::DatasetCatalog)
    } else if n == "apod"@ {
        Some(SourceId::PictureOfDay)
    } else if n == "neo"@ {
        Some(SourceId::NearEarthObjects)
    } else if n == "donki"@ {
        Some(SourceId::SpaceWeather)
    } else if n == "spacex"@ {
        Some(SourceId::LaunchSchedule)
    } else {
        None
    }
}

/// Character-by-character string comparison, exact against the views.
pub fn str_eq(a: &str, b: &str) -> (r: bool)
    ensures
        r == (a@ == b@),
{
    let la = a.unicode_len();
    let lb = b.unicode_len();
    if la != lb {
        assert(a@ != b@) by {
            if a@ == b@ {
                assert(a@.len() == b@.len());
            }
        };
        return false;
    }
    let mut i: usize = 0;
    while i < la
        invariant
            i <= la,
            la == a@.len(),
            la == b@.len(),
            forall|j: int| 0 <= j < i ==> a@[j] == b@[j],
        decreases la - i,
    {
        let ca = a.get_char(i);
        let cb = b.get_char(i);
        if ca != cb {
            assert(a@ != b@) by {
                if a@ == b@ {
                    assert(a@[i as int] == b@[i as int]);
                }
            };
            return false;
        }
        i += 1;
    }
    proof {
        assert(a@ =~= b@);
    }
    true
}

/// Parses a route segment into a source identifier; `None` exactly when the
/// name is outside the fixed enumeration.
pub fn from_name(name: &str) -> (r: Option<SourceId>)
    ensures
        r == source_of_name(name@),
{
    if str_eq(name, "iss") {
        Some(SourceId::Position)
    } else if str_eq(name, "osdr") {
        Some(SourceId::DatasetCatalog)
    } else if str_eq(name, "apod") {
        Some(SourceId::PictureOfDay)
    } else if str_eq(name, "neo") {
        Some(SourceId::NearEarthObjects)
    } else if str_eq(name, "donki") {
        Some(SourceId::SpaceWeather)
    } else if str_eq(name, "spacex") {
        Some(SourceId::LaunchSchedule)
    } else {
        None
    }
}

/// All sources, in slot order.
pub fn all_sources() -> (r: Vec<SourceId>)
    ensures
        r@.len() == source_count(),
        forall|i: int| 0 <= i < source_count() ==> (#[trigger] r@[i]).index_spec() == i,
{
    let mut v: Vec<SourceId> = Vec::new();
    v.push(SourceId::Position);
    v.push(SourceId::DatasetCatalog);
    v.push(SourceId::PictureOfDay);
    v.push(SourceId::NearEarthObjects);
    v.push(SourceId::SpaceWeather);
    v.push(SourceId::LaunchSchedule);
    v
}

} // verus!
