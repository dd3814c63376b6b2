//! The reader: turns a text into a symbol, or says where and why it is none.
use vstd::prelude::*;
use crate::grammar::{
    bare_end, esc_scan, expect_char, expect_space, is_local_form, is_space,
    lemma_read_desc_advances, local_prefix, read_bracketed, read_desc, read_descs, read_field,
    read_global, read_ident, read_method_tail, read_name, read_package, read_symbol, Fault,
    ParseErrorKind,
};
use crate::laws::law_read_well_shaped;
use crate::print::char_is_reserved;
use crate::symbol::{
    descriptor_views, Descriptor, DescriptorView, GlobalSymbol, Package, Scheme, Symbol,
};
use crate::text::{byte_offset, chars_of, offset_in_bytes, push_char, sentinel_string};

verus! {

/// Why a text is no symbol, and the byte offset at which that was detected.
#[derive(Debug, Clone, Copy, PartialEq, Eq, Hash)]
pub struct ParseError {
    pub kind: ParseErrorKind,
    pub offset: usize,
}

/// A failure inside the reader: its kind and the index of the character.
pub type Stop = (ParseErrorKind, usize);

/// The failure that was met is the one that the grammar gives.
pub open spec fn same_fault(e: Stop, f: Fault) -> bool {
    e.0 == f.0 && e.1 == f.1
}

/// The text and index that were read are those that the grammar gives.
pub open spec fn agree_text(r: Result<(String, usize), Stop>, m: Result<(Seq<char>, int), Fault>) -> bool {
    match (r, m) {
        (Ok((t, e)), Ok((mt, me))) => t@ == mt && e == me,
        (Err(e), Err(f)) => same_fault(e, f),
        _ => false,
    }
}

/// The index that was read is the one that the grammar gives.
pub open spec fn agree_index(r: Result<usize, Stop>, m: Result<int, Fault>) -> bool {
    match (r, m) {
        (Ok(e), Ok(me)) => e == me,
        (Err(e), Err(f)) => same_fault(e, f),
        _ => false,
    }
}

/// The descriptor and index that were read are those that the grammar gives.
pub open spec fn agree_desc(r: Result<(Descriptor, usize), Stop>, m: Result<(DescriptorView, int), Fault>) -> bool {
    match (r, m) {
        (Ok((d, e)), Ok((md, me))) => d@ == md && e == me,
        (Err(e), Err(f)) => same_fault(e, f),
        _ => false,
    }
}

/// Where a step of the reader ended, or failed: never past the end of a text
/// of `len` characters, and never before `from`.
pub open spec fn within<T>(r: Result<(T, usize), Stop>, from: usize, len: usize) -> bool {
    match r {
        Ok((t, e)) => from <= e <= len,
        Err(e) => e.1 <= len,
    }
}

/// Whether `c` is one of the white-space characters of the grammar.
fn white(c: char) -> (r: bool)
    ensures
        r == is_space(c),
{
    c == ' ' || c == '\t' || c == '\n' || c == '\r'
}

/// The run of unreserved characters at `i`, and the index after it.
fn bare_at(s: &Vec<char>, i: usize) -> (r: (String, usize))
    requires
        i <= s.len(),
    ensures
        r.1 == bare_end(s@, i as int),
        r.0@ == s@.subrange(i as int, r.1 as int),
        i <= r.1 <= s.len(),
{
    let mut acc = String::new();
    let mut j: usize = i;
    assert(acc@ =~= s@.subrange(i as int, j as int));
    while j < s.len() && !char_is_reserved(s[j])
        invariant
            i <= j <= s.len(),
            bare_end(s@, i as int) == bare_end(s@, j as int),
            acc@ =~= s@.subrange(i as int, j as int),
        decreases s.len() - j,
    {
        push_char(&mut acc, s[j]);
        j += 1;
    }
    (acc, j)
}

/// The inside of the escape region that was opened before `i`, and the index
/// after its closing backtick.
fn escaped_at(s: &Vec<char>, i: usize) -> (r: Option<(String, usize)>)
    requires
        i <= s.len(),
    ensures
        match (r, esc_scan(s@, i as int, Seq::empty())) {
            (Some((t, e)), Some((mt, me))) => t@ == mt && e == me && i < e <= s.len(),
            (None, None) => true,
            _ => false,
        },
{
    let mut acc = String::new();
    let mut j: usize = i;
    while j < s.len()
        invariant
            i <= j <= s.len(),
            esc_scan(s@, i as int, Seq::empty()) == esc_scan(s@, j as int, acc@),
        decreases s.len() - j,
    {
        let c = s[j];
        if c != '`' {
            push_char(&mut acc, c);
            j += 1;
        } else if j + 1 < s.len() && s[j + 1] == '`' {
            push_char(&mut acc, '`');
            j += 2;
        } else {
            return Some((acc, j + 1));
        }
    }
    None
}

/// Reads an identifier at `i`, escaped or bare; it may be empty.
fn ident_at(s: &Vec<char>, i: usize) -> (r: Result<(String, usize), Stop>)
    requires
        i <= s.len(),
    ensures
        agree_text(r, read_ident(s@, i as int)),
        within(r, i, s.len()),
{
    if i < s.len() && s[i] == '`' {
        match escaped_at(s, i + 1) {
            Some(r) => Ok(r),
            None => Err((ParseErrorKind::UnterminatedEscape, i)),
        }
    } else {
        Ok(bare_at(s, i))
    }
}

/// Reads an identifier at `i` that may not be empty.
fn name_at(s: &Vec<char>, i: usize) -> (r: Result<(String, usize), Stop>)
    requires
        i <= s.len(),
    ensures
        agree_text(r, read_name(s@, i as int)),
        within(r, i, s.len()),
{
    match ident_at(s, i) {
        Err(e) => Err(e),
        Ok((t, e)) => {
            if t.as_str().unicode_len() > 0 {
                Ok((t, e))
            } else if i >= s.len() {
                Err((ParseErrorKind::UnexpectedEndOfInput, i))
            } else {
                Err((ParseErrorKind::IllegalUnescapedCharacter, i))
            }
        },
    }
}

/// Expects the character `c` at `i`.
fn char_at(s: &Vec<char>, i: usize, c: char) -> (r: Result<usize, Stop>)
    requires
        i <= s.len(),
    ensures
        agree_index(r, expect_char(s@, i as int, c)),
        match r {
            Ok(e) => i < e <= s.len(),
            Err(e) => e.1 <= s.len(),
        },
{
    if i >= s.len() {
        Err((ParseErrorKind::UnexpectedEndOfInput, i))
    } else if s[i] == c {
        Ok(i + 1)
    } else {
        Err((ParseErrorKind::InvalidSuffix, i))
    }
}

/// Expects one white-space character at `i`.
fn space_at(s: &Vec<char>, i: usize) -> (r: Result<usize, Stop>)
    requires
        i <= s.len(),
    ensures
        agree_index(r, expect_space(s@, i as int)),
        match r {
            Ok(e) => i < e <= s.len(),
            Err(e) => e.1 <= s.len(),
        },
{
    if i >= s.len() {
        Err((ParseErrorKind::UnexpectedEndOfInput, i))
    } else if white(s[i]) {
        Ok(i + 1)
    } else {
        Err((ParseErrorKind::IllegalUnescapedCharacter, i))
    }
}

/// Reads one package coordinate at `i` and the space after it.
fn field_at(s: &Vec<char>, i: usize) -> (r: Result<(String, usize), Stop>)
    requires
        i <= s.len(),
    ensures
        agree_text(r, read_field(s@, i as int)),
        within(r, i, s.len()),
{
    let first = if i < s.len() && s[i] == '.' {
        Ok((sentinel_string(), i + 1))
    } else {
        name_at(s, i)
    };
    match first {
        Err(e) => Err(e),
        Ok((t, j)) => match space_at(s, j) {
            Err(e) => Err(e),
            Ok(k) => Ok((t, k)),
        },
    }
}

/// Reads a name and the closing bracket `close` at `i`.
fn bracketed_at(s: &Vec<char>, i: usize, close: char) -> (r: Result<(String, usize), Stop>)
    requires
        i <= s.len(),
    ensures
        agree_text(r, read_bracketed(s@, i as int, close)),
        within(r, i, s.len()),
{
    match name_at(s, i) {
        Err(e) => Err(e),
        Ok((n, j)) => match char_at(s, j, close) {
            Err(e) => Err(e),
            Ok(k) => Ok((n, k)),
        },
    }
}

/// The view of an optional owned text.
pub open spec fn opt_view(o: Option<String>) -> Option<Seq<char>> {
    match o {
        Some(t) => Some(t@),
        None => None,
    }
}

/// Reads the disambiguator of a method at `i`, then `)` and `.`.
fn method_tail_at(s: &Vec<char>, i: usize) -> (r: Result<(Option<String>, usize), Stop>)
    requires
        i <= s.len(),
    ensures
        match (r, read_method_tail(s@, i as int)) {
            (Ok((d, e)), Ok((md, me))) => opt_view(d) == md && e == me,
            (Err(e), Err(f)) => same_fault(e, f),
            _ => false,
        },
        within(r, i, s.len()),
{
    match ident_at(s, i) {
        Err(e) => Err(e),
        Ok((d, j)) => match char_at(s, j, ')') {
            Err(e) => Err(e),
            Ok(k) => match char_at(s, k, '.') {
                Err(e) => Err(e),
                Ok(m) => {
                    if d.as_str().unicode_len() == 0 {
                        Ok((None, m))
                    } else {
                        Ok((Some(d), m))
                    }
                },
            },
        },
    }
}

/// Reads one descriptor at `i`.
fn descriptor_at(s: &Vec<char>, i: usize) -> (r: Result<(Descriptor, usize), Stop>)
    requires
        i < s.len(),
    ensures
        agree_desc(r, read_desc(s@, i as int)),
        within(r, i, s.len()),
        r is Ok ==> r.unwrap().1 > i,
{
    proof {
        lemma_read_desc_advances(s@, i as int);
    }
    if s[i] == '(' {
        match bracketed_at(s, i + 1, ')') {
            Err(e) => Err(e),
            Ok((n, k)) => Ok((Descriptor::Parameter(n), k)),
        }
    } else if s[i] == '[' {
        match bracketed_at(s, i + 1, ']') {
            Err(e) => Err(e),
            Ok((n, k)) => Ok((Descriptor::TypeParameter(n), k)),
        }
    } else {
        match name_at(s, i) {
            Err(e) => Err(e),
            Ok((n, j)) => {
                if j >= s.len() {
                    Err((ParseErrorKind::UnexpectedEndOfInput, j))
                } else if s[j] == '/' {
                    Ok((Descriptor::Namespace(n), j + 1))
                } else if s[j] == '#' {
                    Ok((Descriptor::Type(n), j + 1))
                } else if s[j] == '.' {
                    Ok((Descriptor::Term(n), j + 1))
                } else if s[j] == ':' {
                    Ok((Descriptor::Meta(n), j + 1))
                } else if s[j] == '!' {
                    Ok((Descriptor::Macro(n), j + 1))
                } else if s[j] == '(' {
                    match method_tail_at(s, j + 1) {
                        Err(e) => Err(e),
                        Ok((d, k)) => Ok((Descriptor::Method { name: n, disambiguator: d }, k)),
                    }
                } else {
                    Err((ParseErrorKind::InvalidSuffix, j))
                }
            },
        }
    }
}

/// Reads descriptors from `i` to the end of the text.
fn descriptors_from(s: &Vec<char>, i: usize) -> (r: Result<Vec<Descriptor>, Stop>)
    requires
        i <= s.len(),
    ensures
        match (r, read_descs(s@, i as int, Seq::empty())) {
            (Ok(v), Ok(m)) => descriptor_views(v@) == m,
            (Err(e), Err(f)) => same_fault(e, f),
            _ => false,
        },
        r matches Err(e) ==> e.1 <= s.len(),
{
    let mut out: Vec<Descriptor> = Vec::new();
    let mut j: usize = i;
    assert(descriptor_views(out@) =~= Seq::<DescriptorView>::empty());
    while j < s.len()
        invariant
            i <= j <= s.len(),
            read_descs(s@, i as int, Seq::empty()) == read_descs(
                s@,
                j as int,
                descriptor_views(out@),
            ),
        decreases s.len() - j,
    {
        match descriptor_at(s, j) {
            Err(e) => {
                return Err(e);
            },
            Ok((d, k)) => {
                assert(descriptor_views(out@.push(d)) =~= descriptor_views(out@).push(d@));
                out.push(d);
                j = k;
            },
        }
    }
    Ok(out)
}

/// Reads the three package coordinates at `i`.
fn package_at(s: &Vec<char>, i: usize) -> (r: Result<(Package, usize), Stop>)
    requires
        i <= s.len(),
    ensures
        match (r, read_package(s@, i as int)) {
            (Ok((p, e)), Ok((mp, me))) => p@ == mp && e == me,
            (Err(e), Err(f)) => same_fault(e, f),
            _ => false,
        },
        within(r, i, s.len()),
{
    match field_at(s, i) {
        Err(e) => Err(e),
        Ok((manager, j)) => match field_at(s, j) {
            Err(e) => Err(e),
            Ok((package_name, k)) => match field_at(s, k) {
                Err(e) => Err(e),
                Ok((version, m)) => Ok((Package::from_stored(manager, package_name, version), m)),
            },
        },
    }
}

/// Reads the whole text as a global symbol.
fn global_of(s: &Vec<char>) -> (r: Result<Symbol, Stop>)
    ensures
        match (r, read_global(s@)) {
            (Ok(g), Ok(m)) => g@ == m,
            (Err(e), Err(f)) => same_fault(e, f),
            _ => false,
        },
        r matches Err(e) ==> e.1 <= s.len(),
{
    match ident_at(s, 0) {
        Err(e) => Err(e),
        Ok((scheme, i1)) => {
            if scheme.as_str().unicode_len() == 0 {
                Err((ParseErrorKind::EmptyScheme, 0))
            } else {
                match space_at(s, i1) {
                    Err(e) => Err(e),
                    Ok(i2) => match package_at(s, i2) {
                        Err(e) => Err(e),
                        Ok((package, i3)) => {
                            if i3 >= s.len() {
                                Err((ParseErrorKind::NoDescriptors, i3))
                            } else {
                                match descriptors_from(s, i3) {
                                    Err(e) => Err(e),
                                    Ok(descriptors) => Ok(
                                        Symbol::Global(
                                            GlobalSymbol {
                                                scheme: Scheme(scheme),
                                                package,
                                                descriptors,
                                            },
                                        ),
                                    ),
                                }
                            }
                        },
                    },
                }
            }
        },
    }
}

/// Whether the text opens with the local word and a space.
fn opens_local(s: &Vec<char>) -> (r: bool)
    ensures
        r == is_local_form(s@),
{
    if s.len() < 6 {
        false
    } else {
        let r = s[0] == 'l' && s[1] == 'o' && s[2] == 'c' && s[3] == 'a' && s[4] == 'l' && s[5]
            == ' ';
        proof {
            let head = s@.subrange(0, 6);
            let p = local_prefix();
            assert(p.len() == 6 && p[0] == 'l' && p[1] == 'o' && p[2] == 'c' && p[3] == 'a'
                && p[4] == 'l' && p[5] == ' ');
            assert(head[0] == s@[0] && head[1] == s@[1] && head[2] == s@[2] && head[3] == s@[3]
                && head[4] == s@[4] && head[5] == s@[5]);
            if r {
                assert(head =~= p);
            }
        }
        r
    }
}

/// What `parse` owes for a text: the symbol that the grammar reads from it,
/// or the kind of the failure and the byte offset of the character at which
/// the grammar detects it.
pub open spec fn parse_outcome(r: Result<Symbol, ParseError>, raw: Seq<char>) -> bool {
    match (r, read_symbol(raw)) {
        (Ok(sym), Ok(m)) => sym@ == m,
        (Err(e), Err(f)) => e.kind == f.0 && e.offset == byte_offset(raw, f.1),
        _ => false,
    }
}

impl Symbol {
    /// Reads a symbol from its text. A text that opens with the local word
    /// and a space is a local symbol whose id is the rest, taken as it is;
    /// any other text is read as a global symbol. A text that is no symbol
    /// gives the kind of the failure and the byte offset at which it was
    /// detected.
    pub fn parse(raw: &str) -> (r: Result<Symbol, ParseError>)
        ensures
            parse_outcome(r, raw@),
            r matches Ok(sym) ==> sym@.well_shaped(),
    {
        proof {
            law_read_well_shaped(raw@);
        }
        let cs = chars_of(raw);
        let n = cs.len();
        let inner: Result<Symbol, Stop> = if opens_local(&cs) {
            if n == 6 {
                Err((ParseErrorKind::EmptyLocalId, 6))
            } else {
                Ok(Symbol::Local { local_id: raw.substring_char(6, n).to_owned() })
            }
        } else {
            global_of(&cs)
        };
        match inner {
            Ok(sym) => Ok(sym),
            Err((kind, at)) => Err(ParseError { kind, offset: offset_in_bytes(raw, &cs, at) }),
        }
    }
}

} // verus!
