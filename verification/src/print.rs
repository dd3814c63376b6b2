//! The writer: renders a symbol as its canonical text.
use vstd::prelude::*;
use vstd::string::StringExecFns;
use crate::grammar::{
    double_ticks, escape, format_coordinate, format_desc, format_descs, format_symbol,
    is_reserved, local_prefix, needs_escape,
};
use crate::symbol::{descriptor_views, Descriptor, Symbol};
use crate::text::{chars_of, is_sentinel, push_char};

verus! {

/// Whether `c` carries structure in the grammar.
pub fn char_is_reserved(c: char) -> (r: bool)
    ensures
        r == is_reserved(c),
{
    c == ' ' || c == '\t' || c == '\n' || c == '\r' || c == '`' || c == '/' || c == '#' || c
        == '.' || c == '(' || c == ')' || c == '[' || c == ']' || c == '!' || c == ':'
}

/// Whether one of the characters is reserved.
fn has_reserved(cs: &Vec<char>) -> (r: bool)
    ensures
        r == needs_escape(cs@),
{
    let mut i: usize = 0;
    while i < cs.len()
        invariant
            i <= cs.len(),
            forall|k: int| 0 <= k < i ==> !is_reserved(#[trigger] cs@[k]),
        decreases cs.len() - i,
    {
        if char_is_reserved(cs[i]) {
            return true;
        }
        i += 1;
    }
    false
}

/// Appends the rendering of the identifier `id` to `out`.
pub fn push_escaped(out: &mut String, id: &str)
    ensures
        final(out)@ == old(out)@ + escape(id@),
{
    let cs = chars_of(id);
    if has_reserved(&cs) {
        let ghost start = out@;
        push_char(out, '`');
        let ghost base = out@;
        let mut i: usize = 0;
        assert(cs@.skip(0) =~= cs@);
        while i < cs.len()
            invariant
                i <= cs.len(),
                out@ + double_ticks(cs@.skip(i as int)) =~= base + double_ticks(cs@),
            decreases cs.len() - i,
        {
            let c = cs[i];
            assert(cs@.skip(i as int).drop_first() =~= cs@.skip(i + 1));
            assert(cs@.skip(i as int)[0] == c);
            push_char(out, c);
            if c == '`' {
                push_char(out, '`');
            }
            i += 1;
        }
        assert(double_ticks(cs@.skip(i as int)) =~= Seq::<char>::empty());
        assert(out@ =~= base + double_ticks(cs@));
        push_char(out, '`');
        assert(out@ =~= start + escape(id@));
    } else {
        out.append(id);
    }
}

/// Appends the rendering of a stored package coordinate to `out`.
fn push_coordinate(out: &mut String, stored: &String)
    ensures
        final(out)@ == old(out)@ + format_coordinate(stored@),
{
    let s = stored.as_str();
    if is_sentinel(s) {
        out.append(s);
    } else {
        push_escaped(out, s);
    }
}

/// Appends the rendering of one descriptor to `out`.
pub fn push_descriptor(out: &mut String, d: &Descriptor)
    ensures
        final(out)@ == old(out)@ + format_desc(d@),
{
    let ghost start = out@;
    match d {
        Descriptor::Namespace(n) => {
            push_escaped(out, n.as_str());
            push_char(out, '/');
        },
        Descriptor::Type(n) => {
            push_escaped(out, n.as_str());
            push_char(out, '#');
        },
        Descriptor::Term(n) => {
            push_escaped(out, n.as_str());
            push_char(out, '.');
        },
        Descriptor::Meta(n) => {
            push_escaped(out, n.as_str());
            push_char(out, ':');
        },
        Descriptor::Macro(n) => {
            push_escaped(out, n.as_str());
            push_char(out, '!');
        },
        Descriptor::Method { name, disambiguator } => {
            push_escaped(out, name.as_str());
            push_char(out, '(');
            match disambiguator {
                Some(x) => {
                    push_escaped(out, x.as_str());
                },
                None => {
                    assert(escape(Seq::<char>::empty()) =~= Seq::<char>::empty());
                },
            }
            push_char(out, ')');
            push_char(out, '.');
        },
        Descriptor::TypeParameter(n) => {
            push_char(out, '[');
            push_escaped(out, n.as_str());
            push_char(out, ']');
        },
        Descriptor::Parameter(n) => {
            push_char(out, '(');
            push_escaped(out, n.as_str());
            push_char(out, ')');
        },
    }
    assert(out@ =~= start + format_desc(d@));
}

impl Symbol {
    /// The canonical text of the symbol: for a local symbol the local word,
    /// a space and the id as it is; for a global one the scheme, the three
    /// package coordinates and the descriptors in their order, each
    /// identifier escaped only where it holds a reserved character.
    pub fn format(&self) -> (r: String)
        ensures
            r@ == format_symbol(self@),
    {
        let mut out = String::new();
        match self {
            Symbol::Local { local_id } => {
                push_char(&mut out, 'l');
                push_char(&mut out, 'o');
                push_char(&mut out, 'c');
                push_char(&mut out, 'a');
                push_char(&mut out, 'l');
                push_char(&mut out, ' ');
                assert(out@ =~= local_prefix());
                out.append(local_id.as_str());
            },
            Symbol::Global(g) => {
                push_escaped(&mut out, g.scheme.0.as_str());
                push_char(&mut out, ' ');
                let (manager, package_name, version) = g.package.stored();
                push_coordinate(&mut out, manager);
                push_char(&mut out, ' ');
                push_coordinate(&mut out, package_name);
                push_char(&mut out, ' ');
                push_coordinate(&mut out, version);
                push_char(&mut out, ' ');
                let ghost base = out@;
                let ghost ds = descriptor_views(g.descriptors@);
                let mut i: usize = 0;
                assert(ds.skip(0) =~= ds);
                while i < g.descriptors.len()
                    invariant
                        i <= g.descriptors.len(),
                        ds == descriptor_views(g.descriptors@),
                        out@ + format_descs(ds.skip(i as int)) =~= base + format_descs(ds),
                    decreases g.descriptors.len() - i,
                {
                    assert(ds.skip(i as int).drop_first() =~= ds.skip(i + 1));
                    assert(ds.skip(i as int)[0] == g.descriptors@[i as int]@);
                    push_descriptor(&mut out, &g.descriptors[i]);
                    i += 1;
                }
                assert(format_descs(ds.skip(i as int)) =~= Seq::<char>::empty());
                assert(out@ =~= base + format_descs(ds));
                assert(out@ =~= format_symbol(self@));
            },
        }
        out
    }
}

} // verus!
