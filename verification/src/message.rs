//! The plain shapes that a symbol takes in the binary interchange schema,
//! and the mapping of the typed model onto them.
use vstd::prelude::*;
use crate::symbol::{
    local_word, Descriptor, DescriptorView, Package, PackageView, Symbol, SymbolView,
};
use crate::text::push_char;

verus! {

/// The kind of a descriptor in the interchange schema: the eight kinds of
/// the model, and `Local` for the one descriptor of a local symbol.
#[derive(Debug, Clone, Copy, PartialEq, Eq, Hash)]
pub enum Suffix {
    Namespace,
    Type,
    Term,
    Method,
    TypeParameter,
    Parameter,
    Meta,
    Local,
    Macro,
}

/// A descriptor in the interchange schema.
#[derive(Debug, Clone, PartialEq, Eq, Hash)]
pub struct DescriptorMessage {
    pub name: String,
    pub disambiguator: String,
    pub suffix: Suffix,
}

/// Package coordinates in the interchange schema: three plain texts.
#[derive(Debug, Clone, PartialEq, Eq, Hash)]
pub struct PackageMessage {
    pub manager: String,
    pub name: String,
    pub version: String,
}

/// A symbol in the interchange schema.
#[derive(Debug, Clone, PartialEq, Eq, Hash)]
pub struct SymbolMessage {
    pub scheme: String,
    pub package: Option<PackageMessage>,
    pub descriptors: Vec<DescriptorMessage>,
}

/// Mathematical value of a `DescriptorMessage`.
pub struct DescriptorMessageView {
    pub name: Seq<char>,
    pub disambiguator: Seq<char>,
    pub suffix: Suffix,
}

/// Mathematical value of a `PackageMessage`.
pub struct PackageMessageView {
    pub manager: Seq<char>,
    pub name: Seq<char>,
    pub version: Seq<char>,
}

/// Mathematical value of a `SymbolMessage`.
pub struct SymbolMessageView {
    pub scheme: Seq<char>,
    pub package: Option<PackageMessageView>,
    pub descriptors: Seq<DescriptorMessageView>,
}

impl View for DescriptorMessage {
    type V = DescriptorMessageView;

    open spec fn view(&self) -> DescriptorMessageView {
        DescriptorMessageView {
            name: self.name@,
            disambiguator: self.disambiguator@,
            suffix: self.suffix,
        }
    }
}

impl View for PackageMessage {
    type V = PackageMessageView;

    open spec fn view(&self) -> PackageMessageView {
        PackageMessageView { manager: self.manager@, name: self.name@, version: self.version@ }
    }
}

impl View for SymbolMessage {
    type V = SymbolMessageView;

    open spec fn view(&self) -> SymbolMessageView {
        SymbolMessageView {
            scheme: self.scheme@,
            package: match self.package {
                Some(p) => Some(p@),
                None => None,
            },
            descriptors: self.descriptors@.map_values(|m: DescriptorMessage| m@),
        }
    }
}

/// The kind under which a descriptor goes into a message.
pub open spec fn suffix_of(d: DescriptorView) -> Suffix {
    match d {
        DescriptorView::Namespace(_) => Suffix::Namespace,
        DescriptorView::Type(_) => Suffix::Type,
        DescriptorView::Term(_) => Suffix::Term,
        DescriptorView::Meta(_) => Suffix::Meta,
        DescriptorView::Macro(_) => Suffix::Macro,
        DescriptorView::Method { .. } => Suffix::Method,
        DescriptorView::TypeParameter(_) => Suffix::TypeParameter,
        DescriptorView::Parameter(_) => Suffix::Parameter,
    }
}

/// The message of a descriptor: its name, its kind, and the disambiguator
/// of a method that has one, else the empty text.
pub open spec fn descriptor_message(d: DescriptorView) -> DescriptorMessageView {
    DescriptorMessageView {
        name: d.name(),
        disambiguator: match d {
            DescriptorView::Method { name, disambiguator: Some(x) } => x,
            _ => Seq::empty(),
        },
        suffix: suffix_of(d),
    }
}

/// The message of package coordinates: the three texts as they are stored,
/// the sentinel standing for an absent one.
pub open spec fn package_message(p: PackageView) -> PackageMessageView {
    PackageMessageView { manager: p.manager, name: p.package_name, version: p.version }
}

/// The message of a symbol. A local symbol goes under the scheme `local`,
/// without a package, with one descriptor of kind `Local` that carries its
/// id; a global one with its scheme, its package and its descriptors in
/// their order.
pub open spec fn symbol_message(s: SymbolView) -> SymbolMessageView {
    match s {
        SymbolView::Local { local_id } => SymbolMessageView {
            scheme: local_word(),
            package: None,
            descriptors: seq![
                DescriptorMessageView {
                    name: local_id,
                    disambiguator: Seq::empty(),
                    suffix: Suffix::Local,
                },
            ],
        },
        SymbolView::Global { scheme, package, descriptors } => SymbolMessageView {
            scheme,
            package: Some(package_message(package)),
            descriptors: descriptors.map_values(|d: DescriptorView| descriptor_message(d)),
        },
    }
}

/// The message of a descriptor that has no disambiguator.
fn plain(name: &String, suffix: Suffix) -> (r: DescriptorMessage)
    ensures
        r@ == (DescriptorMessageView { name: name@, disambiguator: Seq::empty(), suffix }),
{
    DescriptorMessage { name: name.clone(), disambiguator: String::new(), suffix }
}

impl Descriptor {
    /// The descriptor as a message of the interchange schema.
    pub fn to_proto(&self) -> (r: DescriptorMessage)
        ensures
            r@ == descriptor_message(self@),
    {
        match self {
            Descriptor::Namespace(n) => plain(n, Suffix::Namespace),
            Descriptor::Type(n) => plain(n, Suffix::Type),
            Descriptor::Term(n) => plain(n, Suffix::Term),
            Descriptor::Meta(n) => plain(n, Suffix::Meta),
            Descriptor::Macro(n) => plain(n, Suffix::Macro),
            Descriptor::Method { name, disambiguator } => DescriptorMessage {
                name: name.clone(),
                disambiguator: match disambiguator {
                    Some(x) => x.clone(),
                    None => String::new(),
                },
                suffix: Suffix::Method,
            },
            Descriptor::TypeParameter(n) => plain(n, Suffix::TypeParameter),
            Descriptor::Parameter(n) => plain(n, Suffix::Parameter),
        }
    }
}

impl Package {
    /// The coordinates as a message of the interchange schema.
    pub fn to_proto(&self) -> (r: PackageMessage)
        ensures
            r@ == package_message(self@),
    {
        let (manager, package_name, version) = self.stored();
        PackageMessage {
            manager: manager.clone(),
            name: package_name.clone(),
            version: version.clone(),
        }
    }
}

impl Symbol {
    /// The symbol as a message of the interchange schema.
    pub fn to_proto(&self) -> (r: SymbolMessage)
        ensures
            r@ == symbol_message(self@),
    {
        match self {
            Symbol::Local { local_id } => {
                let mut scheme = String::new();
                push_char(&mut scheme, 'l');
                push_char(&mut scheme, 'o');
                push_char(&mut scheme, 'c');
                push_char(&mut scheme, 'a');
                push_char(&mut scheme, 'l');
                assert(scheme@ =~= local_word());
                let mut descriptors: Vec<DescriptorMessage> = Vec::new();
                descriptors.push(plain(local_id, Suffix::Local));
                let r = SymbolMessage { scheme, package: None, descriptors };
                assert(r@.descriptors =~= symbol_message(self@).descriptors);
                r
            },
            Symbol::Global(g) => {
                let mut descriptors: Vec<DescriptorMessage> = Vec::new();
                let mut i: usize = 0;
                while i < g.descriptors.len()
                    invariant
                        i <= g.descriptors.len(),
                        descriptors@.len() == i,
                        forall|k: int|
                            0 <= k < i ==> (#[trigger] descriptors@[k])@ == descriptor_message(
                                g.descriptors@[k]@,
                            ),
                    decreases g.descriptors.len() - i,
                {
                    descriptors.push(g.descriptors[i].to_proto());
                    i += 1;
                }
                let r = SymbolMessage {
                    scheme: g.scheme.0.clone(),
                    package: Some(g.package.to_proto()),
                    descriptors,
                };
                assert(r@.descriptors =~= symbol_message(self@).descriptors);
                r
            },
        }
    }
}

} // verus!
