//! The typed model of a symbol: descriptors, package coordinates, schemes.
use vstd::prelude::*;
use crate::text::{is_sentinel, sentinel, sentinel_string};

verus! {

/// Mathematical value of a `Descriptor`.
pub enum DescriptorView {
    Namespace(Seq<char>),
    Type(Seq<char>),
    Term(Seq<char>),
    Meta(Seq<char>),
    Macro(Seq<char>),
    Method { name: Seq<char>, disambiguator: Option<Seq<char>> },
    TypeParameter(Seq<char>),
    Parameter(Seq<char>),
}

impl DescriptorView {
    /// The name that the descriptor carries.
    pub open spec fn name(self) -> Seq<char> {
        match self {
            DescriptorView::Namespace(n) => n,
            DescriptorView::Type(n) => n,
            DescriptorView::Term(n) => n,
            DescriptorView::Meta(n) => n,
            DescriptorView::Macro(n) => n,
            DescriptorView::Method { name, disambiguator } => name,
            DescriptorView::TypeParameter(n) => n,
            DescriptorView::Parameter(n) => n,
        }
    }

    /// A descriptor is well formed when its name is not empty and a method's
    /// disambiguator, where present, is not empty either.
    pub open spec fn wf(self) -> bool {
        &&& self.name().len() > 0
        &&& match self {
            DescriptorView::Method { name, disambiguator: Some(d) } => d.len() > 0,
            _ => true,
        }
    }
}

/// Mathematical value of a `Package`: the three stored coordinates, where the
/// sentinel stands for an absent one.
pub struct PackageView {
    pub manager: Seq<char>,
    pub package_name: Seq<char>,
    pub version: Seq<char>,
}

/// What a stored coordinate means to a caller: absent for the sentinel.
pub open spec fn coordinate(stored: Seq<char>) -> Option<Seq<char>> {
    if stored == sentinel() {
        None
    } else {
        Some(stored)
    }
}

/// What is stored for a coordinate that a caller hands in.
pub open spec fn stored_coordinate(given: Option<Seq<char>>) -> Seq<char> {
    match given {
        Some(g) => g,
        None => sentinel(),
    }
}

impl PackageView {
    /// Every stored coordinate holds at least one character.
    pub open spec fn wf(self) -> bool {
        &&& self.manager.len() > 0
        &&& self.package_name.len() > 0
        &&& self.version.len() > 0
    }
}

/// Mathematical value of a `Symbol`.
pub enum SymbolView {
    Local { local_id: Seq<char> },
    Global { scheme: Seq<char>, package: PackageView, descriptors: Seq<DescriptorView> },
}

/// The scheme name that is set aside for local symbols.
pub open spec fn local_word() -> Seq<char> {
    seq!['l', 'o', 'c', 'a', 'l']
}

impl SymbolView {
    /// What every symbol that was read from a text satisfies: a local symbol
    /// has a non-empty id; a global one has a non-empty scheme, coordinates
    /// that are stored with at least one character each, and at least one
    /// descriptor, each of them well formed.
    pub open spec fn well_shaped(self) -> bool {
        match self {
            SymbolView::Local { local_id } => local_id.len() > 0,
            SymbolView::Global { scheme, package, descriptors } => {
                &&& scheme.len() > 0
                &&& package.wf()
                &&& descriptors.len() > 0
                &&& forall|i: int| 0 <= i < descriptors.len() ==> (#[trigger] descriptors[i]).wf()
            },
        }
    }

    /// The symbols that the textual form can carry: the well-shaped ones,
    /// but for a global symbol whose scheme is the local word, whose text
    /// would open as a local symbol does.
    pub open spec fn wf(self) -> bool {
        &&& self.well_shaped()
        &&& match self {
            SymbolView::Local { local_id } => true,
            SymbolView::Global { scheme, package, descriptors } => scheme != local_word(),
        }
    }
}

/// One typed segment of a global symbol's path.
#[derive(Debug, PartialEq, Eq, Hash, Clone)]
pub enum Descriptor {
    Namespace(String),
    Type(String),
    Term(String),
    Meta(String),
    Macro(String),
    Method { name: String, disambiguator: Option<String> },
    TypeParameter(String),
    Parameter(String),
}

impl View for Descriptor {
    type V = DescriptorView;

    open spec fn view(&self) -> DescriptorView {
        match self {
            Descriptor::Namespace(n) => DescriptorView::Namespace(n@),
            Descriptor::Type(n) => DescriptorView::Type(n@),
            Descriptor::Term(n) => DescriptorView::Term(n@),
            Descriptor::Meta(n) => DescriptorView::Meta(n@),
            Descriptor::Macro(n) => DescriptorView::Macro(n@),
            Descriptor::Method { name, disambiguator } => DescriptorView::Method {
                name: name@,
                disambiguator: match disambiguator {
                    Some(d) => Some(d@),
                    None => None,
                },
            },
            Descriptor::TypeParameter(n) => DescriptorView::TypeParameter(n@),
            Descriptor::Parameter(n) => DescriptorView::Parameter(n@),
        }
    }
}

/// The name of the indexing tool or ecosystem that produced a global symbol.
#[derive(Debug, PartialEq, Eq, Hash, Clone, Default)]
pub struct Scheme(pub String);

impl View for Scheme {
    type V = Seq<char>;

    open spec fn view(&self) -> Seq<char> {
        self.0@
    }
}

impl Scheme {
    /// A scheme with the given name.
    pub fn new(s: &str) -> (r: Scheme)
        ensures
            r@ == s@,
    {
        Scheme(s.to_owned())
    }
}

/// The (manager, name, version) triple of the dependency that a global
/// symbol belongs to. Each coordinate may be absent.
#[derive(Debug, PartialEq, Eq, Hash, Clone)]
pub struct Package {
    manager: String,
    package_name: String,
    version: String,
}

impl View for Package {
    type V = PackageView;

    closed spec fn view(&self) -> PackageView {
        PackageView {
            manager: self.manager@,
            package_name: self.package_name@,
            version: self.version@,
        }
    }
}

/// The view of an optional borrowed text.
pub open spec fn opt_text(o: Option<&str>) -> Option<Seq<char>> {
    match o {
        Some(s) => Some(s@),
        None => None,
    }
}

/// The text that is stored for a coordinate as it was handed in.
fn store(given: Option<&str>) -> (r: String)
    ensures
        r@ == stored_coordinate(opt_text(given)),
{
    match given {
        Some(g) => g.to_owned(),
        None => sentinel_string(),
    }
}

/// The coordinate that a stored text stands for.
fn load(stored: &String) -> (r: Option<&str>)
    ensures
        opt_text(r) == coordinate(stored@),
{
    let s = stored.as_str();
    if is_sentinel(s) {
        None
    } else {
        Some(s)
    }
}

impl Default for Package {
    fn default() -> (r: Package)
        ensures
            r@.manager == sentinel(),
            r@.package_name == sentinel(),
            r@.version == sentinel(),
    {
        Package::new(None, None, None)
    }
}

impl Package {
    /// Coordinates from optional texts; an absent one is stored as the
    /// sentinel.
    pub fn new(manager: Option<&str>, package_name: Option<&str>, version: Option<&str>) -> (r:
        Package)
        ensures
            r@.manager == stored_coordinate(opt_text(manager)),
            r@.package_name == stored_coordinate(opt_text(package_name)),
            r@.version == stored_coordinate(opt_text(version)),
    {
        Package {
            manager: store(manager),
            package_name: store(package_name),
            version: store(version),
        }
    }

    /// A package from the three coordinates as they are stored.
    pub(crate) fn from_stored(manager: String, package_name: String, version: String) -> (r:
        Package)
        ensures
            r@ == (PackageView {
                manager: manager@,
                package_name: package_name@,
                version: version@,
            }),
    {
        Package { manager, package_name, version }
    }

    /// The three coordinates as they are stored.
    pub(crate) fn stored(&self) -> (r: (&String, &String, &String))
        ensures
            r.0@ == self@.manager,
            r.1@ == self@.package_name,
            r.2@ == self@.version,
    {
        (&self.manager, &self.package_name, &self.version)
    }

    /// The package manager, or `None` where it is absent.
    pub fn manager(&self) -> (r: Option<&str>)
        ensures
            opt_text(r) == coordinate(self@.manager),
    {
        load(&self.manager)
    }

    /// The package name, or `None` where it is absent.
    pub fn package_name(&self) -> (r: Option<&str>)
        ensures
            opt_text(r) == coordinate(self@.package_name),
    {
        load(&self.package_name)
    }

    /// The package version, or `None` where it is absent.
    pub fn version(&self) -> (r: Option<&str>)
        ensures
            opt_text(r) == coordinate(self@.version),
    {
        load(&self.version)
    }
}

/// A symbol that is visible across documents.
#[derive(Debug, PartialEq, Eq, Hash, Clone)]
pub struct GlobalSymbol {
    pub scheme: Scheme,
    pub package: Package,
    pub descriptors: Vec<Descriptor>,
}

/// The views of a sequence of descriptors, in the same order.
pub open spec fn descriptor_views(ds: Seq<Descriptor>) -> Seq<DescriptorView> {
    ds.map_values(|d: Descriptor| d@)
}

impl View for GlobalSymbol {
    type V = SymbolView;

    open spec fn view(&self) -> SymbolView {
        SymbolView::Global {
            scheme: self.scheme@,
            package: self.package@,
            descriptors: descriptor_views(self.descriptors@),
        }
    }
}

/// The identifier of one code entity.
#[derive(Debug, PartialEq, Eq, Hash, Clone)]
pub enum Symbol {
    Local { local_id: String },
    Global(GlobalSymbol),
}

impl View for Symbol {
    type V = SymbolView;

    open spec fn view(&self) -> SymbolView {
        match self {
            Symbol::Local { local_id } => SymbolView::Local { local_id: local_id@ },
            Symbol::Global(g) => g@,
        }
    }
}

impl Symbol {
    /// Whether the symbol is scoped to one document.
    pub fn is_local(&self) -> (r: bool)
        ensures
            r == (self@ is Local),
    {
        match self {
            Symbol::Local { .. } => true,
            Symbol::Global(_) => false,
        }
    }
}

} // verus!
