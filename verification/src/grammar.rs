//! The textual grammar of symbols, stated on sequences of characters: what
//! the writer produces for a symbol, and what the reader makes of a text.
use vstd::prelude::*;
use crate::symbol::{local_word, DescriptorView, PackageView, SymbolView};
use crate::text::sentinel;

verus! {

/// The ways in which a text can fail to be a symbol.
#[derive(Debug, Clone, Copy, PartialEq, Eq, Hash)]
pub enum ParseErrorKind {
    UnexpectedEndOfInput,
    UnterminatedEscape,
    InvalidSuffix,
    EmptyScheme,
    EmptyLocalId,
    NoDescriptors,
    IllegalUnescapedCharacter,
}

/// A failure of the reader: its kind and the index of the character at which
/// it was detected.
pub type Fault = (ParseErrorKind, int);

/// The white-space characters that the grammar knows: space, tab, line feed
/// and carriage return.
pub open spec fn is_space(c: char) -> bool {
    c == ' ' || c == '\t' || c == '\n' || c == '\r'
}

/// The characters that carry structure in the grammar: white space, the
/// backtick, the suffix markers and the colon.
pub open spec fn is_reserved(c: char) -> bool {
    is_space(c) || c == '`' || c == '/' || c == '#' || c == '.' || c == '(' || c == ')' || c
        == '[' || c == ']' || c == '!' || c == ':'
}

/// An identifier must be escaped when it holds a reserved character.
pub open spec fn needs_escape(id: Seq<char>) -> bool {
    exists|i: int| 0 <= i < id.len() && is_reserved(#[trigger] id[i])
}

/// `id` with every backtick doubled.
pub open spec fn double_ticks(id: Seq<char>) -> Seq<char>
    decreases id.len(),
{
    if id.len() == 0 {
        Seq::empty()
    } else if id[0] == '`' {
        seq!['`', '`'] + double_ticks(id.drop_first())
    } else {
        seq![id[0]] + double_ticks(id.drop_first())
    }
}

/// The rendering of an identifier: bare where nothing in it is reserved,
/// else between backticks with its own backticks doubled.
pub open spec fn escape(id: Seq<char>) -> Seq<char> {
    if needs_escape(id) {
        seq!['`'] + double_ticks(id) + seq!['`']
    } else {
        id
    }
}

/// The rendering of a stored package coordinate.
pub open spec fn format_coordinate(stored: Seq<char>) -> Seq<char> {
    if stored == sentinel() {
        sentinel()
    } else {
        escape(stored)
    }
}

/// The rendering of one descriptor: its name and the marker of its kind.
pub open spec fn format_desc(d: DescriptorView) -> Seq<char> {
    match d {
        DescriptorView::Namespace(n) => escape(n) + seq!['/'],
        DescriptorView::Type(n) => escape(n) + seq!['#'],
        DescriptorView::Term(n) => escape(n) + seq!['.'],
        DescriptorView::Meta(n) => escape(n) + seq![':'],
        DescriptorView::Macro(n) => escape(n) + seq!['!'],
        DescriptorView::Method { name, disambiguator } => escape(name) + (seq!['('] + (escape(
            match disambiguator {
                Some(d) => d,
                None => Seq::empty(),
            },
        ) + seq![')', '.'])),
        DescriptorView::TypeParameter(n) => seq!['['] + (escape(n) + seq![']']),
        DescriptorView::Parameter(n) => seq!['('] + (escape(n) + seq![')']),
    }
}

/// The renderings of the descriptors, one after the other.
pub open spec fn format_descs(ds: Seq<DescriptorView>) -> Seq<char>
    decreases ds.len(),
{
    if ds.len() == 0 {
        Seq::empty()
    } else {
        format_desc(ds[0]) + format_descs(ds.drop_first())
    }
}

/// The word that opens a local symbol, with the space that follows it.
pub open spec fn local_prefix() -> Seq<char> {
    local_word() + seq![' ']
}

/// `head`, one space, and `rest`.
pub open spec fn spaced(head: Seq<char>, rest: Seq<char>) -> Seq<char> {
    head + (seq![' '] + rest)
}

/// The canonical text of a symbol: for a local symbol the local word, a
/// space and the id as it is; for a global one the scheme, the three package
/// coordinates and the descriptors, with one space after each of the first
/// four.
pub open spec fn format_symbol(s: SymbolView) -> Seq<char> {
    match s {
        SymbolView::Local { local_id } => local_prefix() + local_id,
        SymbolView::Global { scheme, package, descriptors } => spaced(
            escape(scheme),
            spaced(
                format_coordinate(package.manager),
                spaced(
                    format_coordinate(package.package_name),
                    spaced(format_coordinate(package.version), format_descs(descriptors)),
                ),
            ),
        ),
    }
}

/// The index of the first character at or after `i` that is reserved, or the
/// length of `s` where there is none.
pub open spec fn bare_end(s: Seq<char>, i: int) -> int
    decreases s.len() - i,
{
    if 0 <= i < s.len() && !is_reserved(s[i]) {
        bare_end(s, i + 1)
    } else {
        i
    }
}

/// Reads the inside of an escape region from `i` on: `acc` followed by the
/// characters up to the closing backtick, a doubled backtick standing for
/// one, and the index after the closing backtick; `None` where the region
/// never closes.
pub open spec fn esc_scan(s: Seq<char>, i: int, acc: Seq<char>) -> Option<(Seq<char>, int)>
    decreases s.len() - i,
{
    if i < 0 || i >= s.len() {
        None
    } else if s[i] != '`' {
        esc_scan(s, i + 1, acc.push(s[i]))
    } else if i + 1 < s.len() && s[i + 1] == '`' {
        esc_scan(s, i + 2, acc.push('`'))
    } else {
        Some((acc, i + 1))
    }
}

/// Reads an identifier at `i`: an escape region where a backtick opens one,
/// else the run of characters up to the next reserved one (which may be
/// empty). Gives the identifier and the index after it.
pub open spec fn read_ident(s: Seq<char>, i: int) -> Result<(Seq<char>, int), Fault> {
    if 0 <= i < s.len() && s[i] == '`' {
        match esc_scan(s, i + 1, Seq::empty()) {
            Some(r) => Ok(r),
            None => Err((ParseErrorKind::UnterminatedEscape, i)),
        }
    } else {
        Ok((s.subrange(i, bare_end(s, i)), bare_end(s, i)))
    }
}

/// Reads an identifier that may not be empty.
pub open spec fn read_name(s: Seq<char>, i: int) -> Result<(Seq<char>, int), Fault> {
    match read_ident(s, i) {
        Err(e) => Err(e),
        Ok((t, e)) => if t.len() > 0 {
            Ok((t, e))
        } else if i >= s.len() {
            Err((ParseErrorKind::UnexpectedEndOfInput, i))
        } else {
            Err((ParseErrorKind::IllegalUnescapedCharacter, i))
        },
    }
}

/// Expects the character `c` at `i`; gives the index after it.
pub open spec fn expect_char(s: Seq<char>, i: int, c: char) -> Result<int, Fault> {
    if i >= s.len() {
        Err((ParseErrorKind::UnexpectedEndOfInput, i))
    } else if s[i] == c {
        Ok(i + 1)
    } else {
        Err((ParseErrorKind::InvalidSuffix, i))
    }
}

/// Expects one white-space character at `i`; gives the index after it.
pub open spec fn expect_space(s: Seq<char>, i: int) -> Result<int, Fault> {
    if i >= s.len() {
        Err((ParseErrorKind::UnexpectedEndOfInput, i))
    } else if is_space(s[i]) {
        Ok(i + 1)
    } else {
        Err((ParseErrorKind::IllegalUnescapedCharacter, i))
    }
}

/// Reads one package coordinate at `i` and the space after it: the sentinel
/// for a dot, else a non-empty identifier.
pub open spec fn read_field(s: Seq<char>, i: int) -> Result<(Seq<char>, int), Fault> {
    let r = if 0 <= i < s.len() && s[i] == '.' {
        Ok((sentinel(), i + 1))
    } else {
        read_name(s, i)
    };
    match r {
        Err(e) => Err(e),
        Ok((t, j)) => match expect_space(s, j) {
            Err(e) => Err(e),
            Ok(k) => Ok((t, k)),
        },
    }
}

/// Reads `name` `close` at `i`, for the two descriptors that stand between
/// brackets.
pub open spec fn read_bracketed(s: Seq<char>, i: int, close: char) -> Result<
    (Seq<char>, int),
    Fault,
> {
    match read_name(s, i) {
        Err(e) => Err(e),
        Ok((n, j)) => match expect_char(s, j, close) {
            Err(e) => Err(e),
            Ok(k) => Ok((n, k)),
        },
    }
}

/// Reads what follows the opening bracket of a method: the disambiguator,
/// which may be empty, then `)` and `.`.
pub open spec fn read_method_tail(s: Seq<char>, i: int) -> Result<(Option<Seq<char>>, int), Fault> {
    match read_ident(s, i) {
        Err(e) => Err(e),
        Ok((d, j)) => match expect_char(s, j, ')') {
            Err(e) => Err(e),
            Ok(k) => match expect_char(s, k, '.') {
                Err(e) => Err(e),
                Ok(m) => Ok((if d.len() == 0 { None } else { Some(d) }, m)),
            },
        },
    }
}

/// Reads one descriptor at `i`; gives it and the index after it.
pub open spec fn read_desc(s: Seq<char>, i: int) -> Result<(DescriptorView, int), Fault> {
    if 0 <= i < s.len() && s[i] == '(' {
        match read_bracketed(s, i + 1, ')') {
            Err(e) => Err(e),
            Ok((n, k)) => Ok((DescriptorView::Parameter(n), k)),
        }
    } else if 0 <= i < s.len() && s[i] == '[' {
        match read_bracketed(s, i + 1, ']') {
            Err(e) => Err(e),
            Ok((n, k)) => Ok((DescriptorView::TypeParameter(n), k)),
        }
    } else {
        match read_name(s, i) {
            Err(e) => Err(e),
            Ok((n, j)) => if j >= s.len() {
                Err((ParseErrorKind::UnexpectedEndOfInput, j))
            } else if s[j] == '/' {
                Ok((DescriptorView::Namespace(n), j + 1))
            } else if s[j] == '#' {
                Ok((DescriptorView::Type(n), j + 1))
            } else if s[j] == '.' {
                Ok((DescriptorView::Term(n), j + 1))
            } else if s[j] == ':' {
                Ok((DescriptorView::Meta(n), j + 1))
            } else if s[j] == '!' {
                Ok((DescriptorView::Macro(n), j + 1))
            } else if s[j] == '(' {
                match read_method_tail(s, j + 1) {
                    Err(e) => Err(e),
                    Ok((d, k)) => Ok((DescriptorView::Method { name: n, disambiguator: d }, k)),
                }
            } else {
                Err((ParseErrorKind::InvalidSuffix, j))
            },
        }
    }
}

/// Reads descriptors from `i` to the end of `s`, after those in `acc`.
pub open spec fn read_descs(s: Seq<char>, i: int, acc: Seq<DescriptorView>) -> Result<
    Seq<DescriptorView>,
    Fault,
>
    decreases s.len() - i,
    via read_descs_decreases
{
    if i < 0 || i >= s.len() {
        Ok(acc)
    } else {
        match read_desc(s, i) {
            Err(e) => Err(e),
            Ok((d, j)) => read_descs(s, j, acc.push(d)),
        }
    }
}

#[via_fn]
proof fn read_descs_decreases(s: Seq<char>, i: int, acc: Seq<DescriptorView>) {
    lemma_read_desc_advances(s, i);
}

/// Reads a global symbol: scheme, three coordinates, descriptors.
pub open spec fn read_global(s: Seq<char>) -> Result<SymbolView, Fault> {
    match read_ident(s, 0) {
        Err(e) => Err(e),
        Ok((scheme, i1)) => if scheme.len() == 0 {
            Err((ParseErrorKind::EmptyScheme, 0))
        } else {
            match expect_space(s, i1) {
                Err(e) => Err(e),
                Ok(i2) => match read_package(s, i2) {
                    Err(e) => Err(e),
                    Ok((package, i3)) => if i3 >= s.len() {
                        Err((ParseErrorKind::NoDescriptors, i3))
                    } else {
                        match read_descs(s, i3, Seq::empty()) {
                            Err(e) => Err(e),
                            Ok(descriptors) => Ok(
                                SymbolView::Global { scheme, package, descriptors },
                            ),
                        }
                    },
                },
            }
        },
    }
}

/// Reads the three package coordinates at `i`, each with the space after it.
pub open spec fn read_package(s: Seq<char>, i: int) -> Result<(PackageView, int), Fault> {
    match read_field(s, i) {
        Err(e) => Err(e),
        Ok((manager, j)) => match read_field(s, j) {
            Err(e) => Err(e),
            Ok((package_name, k)) => match read_field(s, k) {
                Err(e) => Err(e),
                Ok((version, m)) => Ok((PackageView { manager, package_name, version }, m)),
            },
        },
    }
}

/// Whether `s` opens with the local word and a space.
pub open spec fn is_local_form(s: Seq<char>) -> bool {
    s.len() >= 6 && s.subrange(0, 6) == local_prefix()
}

/// What the reader makes of a whole text.
pub open spec fn read_symbol(s: Seq<char>) -> Result<SymbolView, Fault> {
    if is_local_form(s) {
        if s.len() == 6 {
            Err((ParseErrorKind::EmptyLocalId, 6))
        } else {
            Ok(SymbolView::Local { local_id: s.subrange(6, s.len() as int) })
        }
    } else {
        read_global(s)
    }
}

/// The run of unreserved characters from `i` ends at or after `i`, within `s`.
pub proof fn lemma_bare_end_bounds(s: Seq<char>, i: int)
    requires
        0 <= i <= s.len(),
    ensures
        i <= bare_end(s, i) <= s.len(),
        bare_end(s, i) < s.len() ==> is_reserved(s[bare_end(s, i)]),
        forall|k: int| i <= k < bare_end(s, i) ==> !is_reserved(#[trigger] s[k]),
    decreases s.len() - i,
{
    if i < s.len() && !is_reserved(s[i]) {
        lemma_bare_end_bounds(s, i + 1);
    }
}

/// An escape region that closes ends after `i`, within `s`.
pub proof fn lemma_esc_scan_bounds(s: Seq<char>, i: int, acc: Seq<char>)
    requires
        0 <= i,
    ensures
        match esc_scan(s, i, acc) {
            Some((t, e)) => i < e <= s.len(),
            None => true,
        },
    decreases s.len() - i,
{
    if i < s.len() {
        if s[i] != '`' {
            lemma_esc_scan_bounds(s, i + 1, acc.push(s[i]));
        } else if i + 1 < s.len() && s[i + 1] == '`' {
            lemma_esc_scan_bounds(s, i + 2, acc.push('`'));
        }
    }
}

/// An identifier ends at or after its start, and a non-empty one after it.
pub proof fn lemma_read_ident_bounds(s: Seq<char>, i: int)
    requires
        0 <= i <= s.len(),
    ensures
        match read_ident(s, i) {
            Ok((t, e)) => i <= e <= s.len(),
            Err(_) => true,
        },
        match read_name(s, i) {
            Ok((t, e)) => i < e <= s.len(),
            Err(_) => true,
        },
{
    lemma_bare_end_bounds(s, i);
    lemma_esc_scan_bounds(s, i + 1, Seq::empty());
}

/// A descriptor that was read ends after its start, within `s`.
pub proof fn lemma_read_desc_advances(s: Seq<char>, i: int)
    ensures
        match read_desc(s, i) {
            Ok((d, e)) => 0 <= i < s.len() ==> i < e <= s.len(),
            Err(_) => true,
        },
{
    if 0 <= i < s.len() && read_desc(s, i) is Ok {
        lemma_read_ident_bounds(s, i);
        lemma_read_ident_bounds(s, i + 1);
        if s[i] != '(' && s[i] != '[' {
            match read_name(s, i) {
                Ok((n, j)) => {
                    if j < s.len() && s[j] == '(' {
                        lemma_read_ident_bounds(s, j + 1);
                    }
                },
                Err(_) => {},
            }
        }
    }
}

} // verus!
