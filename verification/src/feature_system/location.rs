//! Where a file stands inside a frontend feature system
//! (`<systems root>/<domain>/<relative file>`) and which area of the system
//! it belongs to.
use vstd::prelude::*;
use crate::text::{chars_of, has_string, join_with, str_eq, string_of, texts};
use crate::paths::{
    display_path_components, has_path_prefix, path_has_prefix_components, path_under_any_root,
    split_all, split_chars, sub_path, lemma_split_all_nonempty,
};
use crate::model::path_views;

verus! {

/// A file inside a feature system: the system's domain, the system directory
/// (as components and as a '/'-joined path) and the file's path inside it.
pub struct FeatureSystemLocation {
    pub domain: String,
    pub system: Vec<String>,
    pub system_path: String,
    pub relative_file: String,
}

pub struct LocationView {
    pub domain: Seq<char>,
    pub system: Seq<Seq<char>>,
    pub system_path: Seq<char>,
    pub relative_file: Seq<char>,
}

impl View for FeatureSystemLocation {
    type V = LocationView;

    open spec fn view(&self) -> LocationView {
        LocationView {
            domain: self.domain@,
            system: texts(self.system@),
            system_path: self.system_path@,
            relative_file: self.relative_file@,
        }
    }
}

/// The location of `c` under `root`, where `c` lies strictly below `root`.
pub open spec fn location_in(c: Seq<Seq<char>>, root: Seq<Seq<char>>) -> LocationView {
    let n = root.len() as int;
    LocationView {
        domain: c[n],
        system: c.take(n + 1),
        system_path: join_with(c.take(n + 1), "/"@),
        relative_file: join_with(c.skip(n + 1), "/"@),
    }
}

/// The location of the file under the first systems root that holds it.
pub open spec fn spec_system_location(c: Seq<Seq<char>>, roots: Seq<Seq<Seq<char>>>) -> Option<
    LocationView,
>
    decreases roots.len(),
{
    if roots.len() == 0 {
        None
    } else if c.len() > roots[0].len() && has_path_prefix(c, roots[0]) {
        Some(location_in(c, roots[0]))
    } else {
        spec_system_location(c, roots.subrange(1, roots.len() as int))
    }
}

/// The feature system location of a file, if it lies under a systems root.
pub fn system_location(file: &Vec<String>, systems_roots: &Vec<Vec<String>>) -> (r: Option<
    FeatureSystemLocation,
>)
    ensures
        match r {
            Some(l) => spec_system_location(texts(file@), path_views(systems_roots@)) == Some(l@),
            None => spec_system_location(texts(file@), path_views(systems_roots@)) is None,
        },
{
    let ghost c = texts(file@);
    let ghost rv = path_views(systems_roots@);
    let mut k: usize = 0;
    assert(rv.subrange(0, rv.len() as int) =~= rv);
    while k < systems_roots.len()
        invariant
            k <= systems_roots@.len(),
            c == texts(file@),
            rv == path_views(systems_roots@),
            spec_system_location(c, rv) == spec_system_location(c, rv.subrange(k as int, rv.len() as int)),
        decreases systems_roots@.len() - k,
    {
        let ghost rest = rv.subrange(k as int, rv.len() as int);
        assert(rest.subrange(1, rest.len() as int) =~= rv.subrange(k + 1, rv.len() as int));
        let root = &systems_roots[k];
        if file.len() > root.len() && path_has_prefix_components(file, root) {
            let n = root.len();
            let system = sub_path(file, 0, n + 1);
            let relative = sub_path(file, n + 1, file.len());
            let system_path = display_path_components(&system);
            let relative_file = display_path_components(&relative);
            let l = FeatureSystemLocation {
                domain: file[n].clone(),
                system,
                system_path,
                relative_file,
            };
            assert(c.take(n + 1) =~= c.subrange(0, n + 1));
            assert(c.skip(n + 1) =~= c.subrange(n + 1, c.len() as int));
            return Some(l);
        }
        k = k + 1;
    }
    None
}

/// The areas of a feature system that imports are checked between.
#[derive(Clone, Copy, Debug, PartialEq, Eq, Structural)]
pub enum FeatureSystemDependencyArea {
    PublicEntry,
    Adapters,
    Lib,
    Hooks,
    Contexts,
    Stores,
    Components,
    Guards,
    Routes,
    Other,
}

/// The first '/'-separated segment of a path.
pub open spec fn first_segment(s: Seq<char>) -> Seq<char> {
    split_all(s, '/')[0]
}

/// The area named by a directory.
pub open spec fn spec_area_of_directory(seg: Seq<char>) -> FeatureSystemDependencyArea {
    if seg == "adapters"@ {
        FeatureSystemDependencyArea::Adapters
    } else if seg == "lib"@ {
        FeatureSystemDependencyArea::Lib
    } else if seg == "hooks"@ {
        FeatureSystemDependencyArea::Hooks
    } else if seg == "contexts"@ {
        FeatureSystemDependencyArea::Contexts
    } else if seg == "stores"@ {
        FeatureSystemDependencyArea::Stores
    } else if seg == "components"@ {
        FeatureSystemDependencyArea::Components
    } else if seg == "guards"@ {
        FeatureSystemDependencyArea::Guards
    } else {
        FeatureSystemDependencyArea::Other
    }
}

/// The area of a file, by the first directory of its path inside the system.
pub open spec fn spec_area_of(relative_file: Seq<char>) -> FeatureSystemDependencyArea {
    spec_area_of_directory(first_segment(relative_file))
}

pub open spec fn spec_config_name(a: FeatureSystemDependencyArea) -> Seq<char> {
    match a {
        FeatureSystemDependencyArea::PublicEntry => "public-entry"@,
        FeatureSystemDependencyArea::Adapters => "adapters"@,
        FeatureSystemDependencyArea::Lib => "lib"@,
        FeatureSystemDependencyArea::Hooks => "hooks"@,
        FeatureSystemDependencyArea::Contexts => "contexts"@,
        FeatureSystemDependencyArea::Stores => "stores"@,
        FeatureSystemDependencyArea::Components => "components"@,
        FeatureSystemDependencyArea::Guards => "guards"@,
        FeatureSystemDependencyArea::Routes => "routes"@,
        FeatureSystemDependencyArea::Other => "other"@,
    }
}

pub open spec fn spec_display_name(a: FeatureSystemDependencyArea) -> Seq<char> {
    match a {
        FeatureSystemDependencyArea::PublicEntry => "public entry"@,
        FeatureSystemDependencyArea::Other => "outside code"@,
        _ => spec_config_name(a),
    }
}

/// The hooks, contexts, stores, components and guards areas.
pub open spec fn spec_is_upper_frontend_area(a: FeatureSystemDependencyArea) -> bool {
    a == FeatureSystemDependencyArea::Hooks || a == FeatureSystemDependencyArea::Contexts || a
        == FeatureSystemDependencyArea::Stores || a == FeatureSystemDependencyArea::Components || a
        == FeatureSystemDependencyArea::Guards
}

/// The first '/'-separated segment of a path.
pub fn first_path_segment(s: &str) -> (r: String)
    ensures
        r@ == first_segment(s@),
{
    let cs = chars_of(s);
    let parts = split_chars(cs.as_slice(), '/');
    proof {
        lemma_split_all_nonempty(s@, '/');
        assert(parts@.map_values(|p: Vec<char>| p@)[0] == parts@[0]@);
    }
    string_of(parts[0].as_slice())
}

impl FeatureSystemDependencyArea {
    pub fn from_relative_file(relative_file: &str) -> (r: FeatureSystemDependencyArea)
        ensures
            r == spec_area_of(relative_file@),
    {
        let seg = first_path_segment(relative_file);
        let s = seg.as_str();
        if str_eq(s, "adapters") {
            FeatureSystemDependencyArea::Adapters
        } else if str_eq(s, "lib") {
            FeatureSystemDependencyArea::Lib
        } else if str_eq(s, "hooks") {
            FeatureSystemDependencyArea::Hooks
        } else if str_eq(s, "contexts") {
            FeatureSystemDependencyArea::Contexts
        } else if str_eq(s, "stores") {
            FeatureSystemDependencyArea::Stores
        } else if str_eq(s, "components") {
            FeatureSystemDependencyArea::Components
        } else if str_eq(s, "guards") {
            FeatureSystemDependencyArea::Guards
        } else {
            FeatureSystemDependencyArea::Other
        }
    }

    /// The area's name in the `allowedImports` option.
    pub fn config_name(self) -> (r: &'static str)
        ensures
            r@ == spec_config_name(self),
    {
        match self {
            FeatureSystemDependencyArea::PublicEntry => "public-entry",
            FeatureSystemDependencyArea::Adapters => "adapters",
            FeatureSystemDependencyArea::Lib => "lib",
            FeatureSystemDependencyArea::Hooks => "hooks",
            FeatureSystemDependencyArea::Contexts => "contexts",
            FeatureSystemDependencyArea::Stores => "stores",
            FeatureSystemDependencyArea::Components => "components",
            FeatureSystemDependencyArea::Guards => "guards",
            FeatureSystemDependencyArea::Routes => "routes",
            FeatureSystemDependencyArea::Other => "other",
        }
    }

    /// The area's name in messages.
    pub fn display_name(self) -> (r: &'static str)
        ensures
            r@ == spec_display_name(self),
    {
        match self {
            FeatureSystemDependencyArea::PublicEntry => "public entry",
            FeatureSystemDependencyArea::Other => "outside code",
            _ => self.config_name(),
        }
    }

    pub fn is_upper_frontend_area(self) -> (r: bool)
        ensures
            r == spec_is_upper_frontend_area(self),
    {
        match self {
            FeatureSystemDependencyArea::Hooks
            | FeatureSystemDependencyArea::Contexts
            | FeatureSystemDependencyArea::Stores
            | FeatureSystemDependencyArea::Components
            | FeatureSystemDependencyArea::Guards => true,
            _ => false,
        }
    }
}

/// Whether the location is one of the system's public entry points.
pub fn is_public_entry(location: &FeatureSystemLocation, allowed_public_entry_points: &Vec<String>) -> (r:
    bool)
    ensures
        r == texts(allowed_public_entry_points@).contains(location@.relative_file),
{
    has_string(allowed_public_entry_points, location.relative_file.as_str())
}

/// Whether a file lies under one of the route roots.
pub fn is_route_file(file: &Vec<String>, route_roots: &Vec<Vec<String>>) -> (r: bool)
    ensures
        r == exists|k: int| 0 <= k < route_roots@.len() && has_path_prefix(texts(file@), texts(route_roots@[k]@)),
{
    path_under_any_root(file, route_roots)
}

/// Whether the location's first directory is `area_directory`.
pub fn is_file_in_area(location: &FeatureSystemLocation, area_directory: &str) -> (r: bool)
    ensures
        r == (first_segment(location@.relative_file) == area_directory@),
{
    let seg = first_path_segment(location.relative_file.as_str());
    str_eq(seg.as_str(), area_directory)
}

} // verus!
