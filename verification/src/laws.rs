//! What holds between the writer and the reader: a symbol that is written
//! and read again is the same symbol.
use vstd::prelude::*;
use crate::grammar::{
    bare_end, double_ticks, esc_scan, escape, expect_space, format_coordinate, format_desc,
    format_descs, format_symbol, is_local_form, is_reserved, lemma_read_desc_advances,
    lemma_read_ident_bounds, local_prefix, needs_escape, read_bracketed, read_desc, read_descs,
    read_field, read_global, read_ident, read_method_tail, read_name, read_package, read_symbol,
    spaced, Fault,
};
use crate::symbol::{
    coordinate, local_word, stored_coordinate, DescriptorView, PackageView, SymbolView,
};
use crate::text::sentinel;

verus! {

/// The part of `s` from index `i` on.
pub open spec fn suffix(s: Seq<char>, i: int) -> Seq<char> {
    s.subrange(i, s.len() as int)
}

/// What may follow the rendering of an identifier: nothing, or a reserved
/// character other than the backtick.
pub open spec fn closes_ident(tail: Seq<char>) -> bool {
    tail.len() == 0 || (is_reserved(tail[0]) && tail[0] != '`')
}

/// Where `s` from `i` on is `head` followed by `rest`: `head` stands in `s`
/// at `i`, and `rest` is what `s` holds after it.
pub proof fn lemma_suffix_step(s: Seq<char>, i: int, head: Seq<char>, rest: Seq<char>)
    requires
        0 <= i <= s.len(),
        suffix(s, i) =~= head + rest,
    ensures
        i + head.len() <= s.len(),
        s.len() - i == head.len() + rest.len(),
        s.subrange(i, i + head.len()) =~= head,
        suffix(s, i + head.len()) =~= rest,
        head.len() > 0 ==> s[i] == head[0],
        head.len() > 1 ==> s[i + 1] == head[1],
        head.len() == 0 && rest.len() > 0 ==> s[i] == rest[0],
{
    let t = suffix(s, i);
    let n = head.len() as int;
    assert(t.len() == s.len() - i);
    assert(t.len() == n + rest.len());
    assert forall|m: int| 0 <= m < rest.len() implies suffix(s, i + n)[m] == rest[m] by {
        assert(t[n + m] == s[i + n + m]);
        assert((head + rest)[n + m] == rest[m]);
    }
    assert forall|m: int| 0 <= m < n implies s.subrange(i, i + n)[m] == head[m] by {
        assert(t[m] == s[i + m]);
        assert((head + rest)[m] == head[m]);
    }
    if n > 0 {
        assert(t[0] == s[i]);
    }
    if n > 1 {
        assert(t[1] == s[i + 1]);
    }
    if n == 0 && rest.len() > 0 {
        assert(t[0] == s[i]);
    }
}

proof fn lemma_bare_run(s: Seq<char>, i: int, id: Seq<char>, tail: Seq<char>)
    requires
        0 <= i <= s.len(),
        suffix(s, i) =~= id + tail,
        !needs_escape(id),
        tail.len() == 0 || is_reserved(tail[0]),
    ensures
        bare_end(s, i) == i + id.len(),
    decreases id.len(),
{
    lemma_suffix_step(s, i, id, tail);
    if id.len() > 0 {
        assert(!is_reserved(id[0]));
        let rest = id.drop_first();
        assert(id + tail =~= seq![id[0]] + (rest + tail));
        lemma_suffix_step(s, i, seq![id[0]], rest + tail);
        assert forall|k: int| 0 <= k < rest.len() implies !is_reserved(#[trigger] rest[k]) by {
            assert(rest[k] == id[k + 1]);
        }
        lemma_bare_run(s, i + 1, rest, tail);
    }
}

proof fn lemma_esc_run(s: Seq<char>, i: int, id: Seq<char>, tail: Seq<char>, acc: Seq<char>)
    requires
        0 <= i <= s.len(),
        suffix(s, i) =~= double_ticks(id) + tail,
        tail.len() > 0,
        tail[0] == '`',
        tail.len() == 1 || tail[1] != '`',
    ensures
        esc_scan(s, i, acc) == Some((acc + id, i + double_ticks(id).len() + 1)),
    decreases id.len(),
{
    if id.len() == 0 {
        assert(double_ticks(id) + tail =~= tail + Seq::<char>::empty());
        lemma_suffix_step(s, i, tail, Seq::empty());
        assert(acc + id =~= acc);
    } else if id[0] == '`' {
        let rest = id.drop_first();
        assert(double_ticks(id) + tail =~= seq!['`', '`'] + (double_ticks(rest) + tail));
        lemma_suffix_step(s, i, seq!['`', '`'], double_ticks(rest) + tail);
        lemma_esc_run(s, i + 2, rest, tail, acc.push('`'));
        assert(acc.push('`') + rest =~= acc + id);
    } else {
        let rest = id.drop_first();
        assert(double_ticks(id) + tail =~= seq![id[0]] + (double_ticks(rest) + tail));
        lemma_suffix_step(s, i, seq![id[0]], double_ticks(rest) + tail);
        lemma_esc_run(s, i + 1, rest, tail, acc.push(id[0]));
        assert(acc.push(id[0]) + rest =~= acc + id);
    }
}

/// Where the rendering of `id` stands at `i` and what follows cannot belong
/// to it, the reader finds `id` there and ends right after the rendering.
pub proof fn lemma_ident(s: Seq<char>, i: int, id: Seq<char>, tail: Seq<char>)
    requires
        0 <= i <= s.len(),
        suffix(s, i) =~= escape(id) + tail,
        closes_ident(tail),
    ensures
        read_ident(s, i) == Ok::<(Seq<char>, int), Fault>((id, i + escape(id).len())),
        id.len() > 0 ==> read_name(s, i) == Ok::<(Seq<char>, int), Fault>(
            (id, i + escape(id).len()),
        ),
        i + escape(id).len() <= s.len(),
        suffix(s, i + escape(id).len()) =~= tail,
{
    lemma_suffix_step(s, i, escape(id), tail);
    if needs_escape(id) {
        let closing = seq!['`'] + tail;
        assert(escape(id) + tail =~= seq!['`'] + (double_ticks(id) + closing));
        lemma_suffix_step(s, i, seq!['`'], double_ticks(id) + closing);
        lemma_esc_run(s, i + 1, id, closing, Seq::empty());
        assert(Seq::<char>::empty() + id =~= id);
    } else {
        lemma_bare_run(s, i, id, tail);
        if id.len() > 0 {
            assert(!is_reserved(id[0]));
        }
    }
}

/// The rendering of a non-empty identifier opens with a backtick or with a
/// character that is not reserved.
pub proof fn lemma_escape_head(id: Seq<char>)
    requires
        id.len() > 0,
    ensures
        escape(id).len() > 0,
        escape(id)[0] == '`' || !is_reserved(escape(id)[0]),
{
    if !needs_escape(id) {
        assert(!is_reserved(id[0]));
    }
}

proof fn lemma_field(s: Seq<char>, i: int, stored: Seq<char>, tail: Seq<char>)
    requires
        0 <= i <= s.len(),
        suffix(s, i) =~= format_coordinate(stored) + (seq![' '] + tail),
        stored.len() > 0,
    ensures
        read_field(s, i) == Ok::<(Seq<char>, int), Fault>(
            (stored, i + format_coordinate(stored).len() + 1),
        ),
        i + format_coordinate(stored).len() + 1 <= s.len(),
        suffix(s, i + format_coordinate(stored).len() + 1) =~= tail,
{
    let j = i + format_coordinate(stored).len();
    lemma_suffix_step(s, i, format_coordinate(stored), seq![' '] + tail);
    lemma_suffix_step(s, j, seq![' '], tail);
    if stored != sentinel() {
        lemma_escape_head(stored);
        lemma_ident(s, i, stored, seq![' '] + tail);
    }
}

proof fn lemma_suffixed(s: Seq<char>, i: int, n: Seq<char>, c: char, tail: Seq<char>)
    requires
        0 <= i <= s.len(),
        suffix(s, i) =~= escape(n) + (seq![c] + tail),
        n.len() > 0,
        is_reserved(c),
        c != '`',
    ensures
        i < s.len(),
        s[i] != '(',
        s[i] != '[',
        s[i] != '.',
        read_name(s, i) == Ok::<(Seq<char>, int), Fault>((n, i + escape(n).len())),
        i + escape(n).len() < s.len(),
        s[i + escape(n).len()] == c,
        suffix(s, i + escape(n).len() + 1) =~= tail,
{
    let j = i + escape(n).len();
    lemma_escape_head(n);
    lemma_suffix_step(s, i, escape(n), seq![c] + tail);
    lemma_suffix_step(s, j, seq![c], tail);
    lemma_ident(s, i, n, seq![c] + tail);
}

/// Where the rendering of a well-formed descriptor stands at `i`, the reader
/// finds that descriptor there and ends right after the rendering.
pub proof fn lemma_desc(s: Seq<char>, i: int, d: DescriptorView, tail: Seq<char>)
    requires
        0 <= i <= s.len(),
        suffix(s, i) =~= format_desc(d) + tail,
        d.wf(),
    ensures
        read_desc(s, i) == Ok::<(DescriptorView, int), Fault>((d, i + format_desc(d).len())),
        i < i + format_desc(d).len() <= s.len(),
        suffix(s, i + format_desc(d).len()) =~= tail,
{
    lemma_suffix_step(s, i, format_desc(d), tail);
    match d {
        DescriptorView::Namespace(n) => {
            assert(format_desc(d) + tail =~= escape(n) + (seq!['/'] + tail));
            lemma_suffixed(s, i, n, '/', tail);
        },
        DescriptorView::Type(n) => {
            assert(format_desc(d) + tail =~= escape(n) + (seq!['#'] + tail));
            lemma_suffixed(s, i, n, '#', tail);
        },
        DescriptorView::Term(n) => {
            assert(format_desc(d) + tail =~= escape(n) + (seq!['.'] + tail));
            lemma_suffixed(s, i, n, '.', tail);
        },
        DescriptorView::Meta(n) => {
            assert(format_desc(d) + tail =~= escape(n) + (seq![':'] + tail));
            lemma_suffixed(s, i, n, ':', tail);
        },
        DescriptorView::Macro(n) => {
            assert(format_desc(d) + tail =~= escape(n) + (seq!['!'] + tail));
            lemma_suffixed(s, i, n, '!', tail);
        },
        DescriptorView::Method { name, disambiguator } => {
            let dd = match disambiguator {
                Some(x) => x,
                None => Seq::empty(),
            };
            let close = seq![')'] + (seq!['.'] + tail);
            assert(format_desc(d) + tail =~= escape(name) + (seq!['('] + (escape(dd) + close)));
            lemma_suffixed(s, i, name, '(', escape(dd) + close);
            let j = i + escape(name).len() + 1;
            lemma_ident(s, j, dd, close);
            let k = j + escape(dd).len();
            lemma_suffix_step(s, k, seq![')'], seq!['.'] + tail);
            lemma_suffix_step(s, k + 1, seq!['.'], tail);
            assert(read_method_tail(s, j) == Ok::<(Option<Seq<char>>, int), Fault>(
                (disambiguator, k + 2),
            ));
        },
        DescriptorView::TypeParameter(n) => {
            let close = seq![']'] + tail;
            assert(format_desc(d) + tail =~= seq!['['] + (escape(n) + close));
            lemma_suffix_step(s, i, seq!['['], escape(n) + close);
            lemma_ident(s, i + 1, n, close);
            let k = i + 1 + escape(n).len();
            lemma_suffix_step(s, k, seq![']'], tail);
            assert(read_bracketed(s, i + 1, ']') == Ok::<(Seq<char>, int), Fault>((n, k + 1)));
        },
        DescriptorView::Parameter(n) => {
            let close = seq![')'] + tail;
            assert(format_desc(d) + tail =~= seq!['('] + (escape(n) + close));
            lemma_suffix_step(s, i, seq!['('], escape(n) + close);
            lemma_ident(s, i + 1, n, close);
            let k = i + 1 + escape(n).len();
            lemma_suffix_step(s, k, seq![')'], tail);
            assert(read_bracketed(s, i + 1, ')') == Ok::<(Seq<char>, int), Fault>((n, k + 1)));
        },
    }
}

/// Where the renderings of well-formed descriptors fill `s` from `i` on, the
/// reader finds exactly those descriptors, in their order.
pub proof fn lemma_descs(s: Seq<char>, i: int, ds: Seq<DescriptorView>, acc: Seq<DescriptorView>)
    requires
        0 <= i <= s.len(),
        suffix(s, i) =~= format_descs(ds),
        forall|k: int| 0 <= k < ds.len() ==> (#[trigger] ds[k]).wf(),
    ensures
        read_descs(s, i, acc) == Ok::<Seq<DescriptorView>, Fault>(acc + ds),
    decreases ds.len(),
{
    assert(suffix(s, i).len() == s.len() - i);
    if ds.len() == 0 {
        assert(acc + ds =~= acc);
    } else {
        let d = ds[0];
        let rest = ds.drop_first();
        lemma_desc(s, i, d, format_descs(rest));
        let j = i + format_desc(d).len();
        assert forall|k: int| 0 <= k < rest.len() implies (#[trigger] rest[k]).wf() by {
            assert(rest[k] == ds[k + 1]);
        }
        lemma_descs(s, j, rest, acc.push(d));
        assert(acc.push(d) + rest =~= acc + ds);
    }
}

proof fn lemma_not_local(scheme: Seq<char>, rest: Seq<char>)
    requires
        scheme.len() > 0,
        scheme != local_word(),
    ensures
        !is_local_form(escape(scheme) + (seq![' '] + rest)),
{
    let s = escape(scheme) + (seq![' '] + rest);
    if is_local_form(s) {
        let head = s.subrange(0, 6);
        let p = local_prefix();
        assert(p.len() == 6 && p[0] == 'l' && p[1] == 'o' && p[2] == 'c' && p[3] == 'a' && p[4]
            == 'l' && p[5] == ' ');
        assert(head[0] == s[0] && head[1] == s[1] && head[2] == s[2] && head[3] == s[3]
            && head[4] == s[4] && head[5] == s[5]);
        if needs_escape(scheme) {
            assert(s[0] == '`');
        } else {
            if scheme.len() >= 6 {
                assert(s[5] == scheme[5]);
                assert(is_reserved(scheme[5]));
            } else if scheme.len() < 5 {
                assert(s[scheme.len() as int] == ' ');
            } else {
                assert(s[0] == scheme[0] && s[1] == scheme[1] && s[2] == scheme[2] && s[3]
                    == scheme[3] && s[4] == scheme[4]);
                assert(scheme =~= local_word());
            }
        }
    }
}

proof fn lemma_package(s: Seq<char>, i: int, package: PackageView, tail: Seq<char>)
    requires
        0 <= i <= s.len(),
        package.wf(),
        suffix(s, i) =~= spaced(
            format_coordinate(package.manager),
            spaced(
                format_coordinate(package.package_name),
                spaced(format_coordinate(package.version), tail),
            ),
        ),
    ensures
        match read_package(s, i) {
            Ok((p, e)) => p == package && i <= e <= s.len() && suffix(s, e) =~= tail,
            Err(_) => false,
        },
{
    let r3 = spaced(format_coordinate(package.version), tail);
    let r2 = spaced(format_coordinate(package.package_name), r3);
    lemma_field(s, i, package.manager, r2);
    let j = i + format_coordinate(package.manager).len() + 1;
    lemma_field(s, j, package.package_name, r3);
    let k = j + format_coordinate(package.package_name).len() + 1;
    lemma_field(s, k, package.version, tail);
}

proof fn lemma_global(
    scheme: Seq<char>,
    package: PackageView,
    descriptors: Seq<DescriptorView>,
)
    requires
        (SymbolView::Global { scheme, package, descriptors }).wf(),
    ensures
        read_global(format_symbol(SymbolView::Global { scheme, package, descriptors })) == Ok::<
            SymbolView,
            Fault,
        >(SymbolView::Global { scheme, package, descriptors }),
{
    let s = format_symbol(SymbolView::Global { scheme, package, descriptors });
    let r4 = format_descs(descriptors);
    let r1 = spaced(
        format_coordinate(package.manager),
        spaced(
            format_coordinate(package.package_name),
            spaced(format_coordinate(package.version), r4),
        ),
    );
    assert(suffix(s, 0) =~= s);
    lemma_ident(s, 0, scheme, seq![' '] + r1);
    let i1 = escape(scheme).len() as int;
    lemma_suffix_step(s, i1, seq![' '], r1);
    lemma_package(s, i1 + 1, package, r4);
    match read_package(s, i1 + 1) {
        Ok((p, e)) => {
            lemma_desc(s, e, descriptors[0], format_descs(descriptors.drop_first()));
            lemma_descs(s, e, descriptors, Seq::empty());
            assert(Seq::<DescriptorView>::empty() + descriptors =~= descriptors);
        },
        Err(_) => {},
    }
}

/// Round trip: the reader makes of the canonical text of a well-formed
/// symbol that same symbol.
pub proof fn law_round_trip(v: SymbolView)
    requires
        v.wf(),
    ensures
        read_symbol(format_symbol(v)) == Ok::<SymbolView, Fault>(v),
{
    let s = format_symbol(v);
    match v {
        SymbolView::Local { local_id } => {
            assert(s.subrange(0, 6) =~= local_prefix());
            assert(s.subrange(6, s.len() as int) =~= local_id);
        },
        SymbolView::Global { scheme, package, descriptors } => {
            let r1 = spaced(
                format_coordinate(package.manager),
                spaced(
                    format_coordinate(package.package_name),
                    spaced(format_coordinate(package.version), format_descs(descriptors)),
                ),
            );
            lemma_not_local(scheme, r1);
            lemma_global(scheme, package, descriptors);
        },
    }
}

proof fn lemma_read_descs_shape(s: Seq<char>, i: int, acc: Seq<DescriptorView>)
    requires
        forall|k: int| 0 <= k < acc.len() ==> (#[trigger] acc[k]).wf(),
    ensures
        match read_descs(s, i, acc) {
            Ok(ds) => {
                &&& forall|k: int| 0 <= k < ds.len() ==> (#[trigger] ds[k]).wf()
                &&& ds.len() >= acc.len()
                &&& 0 <= i < s.len() ==> ds.len() > 0
            },
            Err(_) => true,
        },
    decreases s.len() - i,
{
    if 0 <= i < s.len() {
        lemma_read_desc_advances(s, i);
        match read_desc(s, i) {
            Ok((d, j)) => {
                assert(d.wf());
                lemma_read_descs_shape(s, j, acc.push(d));
            },
            Err(_) => {},
        }
    }
}

proof fn lemma_read_field_shape(s: Seq<char>, i: int)
    requires
        0 <= i <= s.len(),
    ensures
        match read_field(s, i) {
            Ok((t, e)) => t.len() > 0 && i < e <= s.len(),
            Err(_) => true,
        },
{
    assert(sentinel().len() == 1);
    lemma_read_ident_bounds(s, i);
}

proof fn lemma_read_package_shape(s: Seq<char>, i: int)
    requires
        0 <= i <= s.len(),
    ensures
        match read_package(s, i) {
            Ok((p, e)) => p.wf() && i < e <= s.len(),
            Err(_) => true,
        },
{
    lemma_read_field_shape(s, i);
    match read_field(s, i) {
        Ok((m, j)) => {
            lemma_read_field_shape(s, j);
            match read_field(s, j) {
                Ok((n, k)) => {
                    lemma_read_field_shape(s, k);
                },
                Err(_) => {},
            }
        },
        Err(_) => {},
    }
}

/// Every symbol that the reader accepts is well shaped: no name in it is
/// empty, it has a descriptor where it is global, and a disambiguator that
/// is present is not empty.
pub proof fn law_read_well_shaped(s: Seq<char>)
    ensures
        match read_symbol(s) {
            Ok(v) => v.well_shaped(),
            Err(_) => true,
        },
{
    if is_local_form(s) {
        assert(s.subrange(6, s.len() as int).len() == s.len() - 6);
    } else {
        match read_global(s) {
            Ok(SymbolView::Global { scheme, package, descriptors }) => {
                lemma_read_ident_bounds(s, 0);
                match read_ident(s, 0) {
                    Ok((t, i1)) => {
                        match expect_space(s, i1) {
                            Ok(i2) => {
                                lemma_read_package_shape(s, i2);
                                match read_package(s, i2) {
                                    Ok((p, i3)) => {
                                        lemma_read_descs_shape(s, i3, Seq::empty());
                                    },
                                    Err(_) => {},
                                }
                            },
                            Err(_) => {},
                        }
                    },
                    Err(_) => {},
                }
            },
            _ => {},
        }
    }
}

/// The package whose three coordinates are absent.
pub open spec fn absent_package() -> PackageView {
    PackageView {
        manager: stored_coordinate(None),
        package_name: stored_coordinate(None),
        version: stored_coordinate(None),
    }
}

/// Absent coordinates stay absent: the package without coordinates reports
/// each of them as absent, and a symbol that carries it is read back from
/// its text with that same package.
pub proof fn law_absent_package(scheme: Seq<char>, descriptors: Seq<DescriptorView>)
    requires
        (SymbolView::Global { scheme, package: absent_package(), descriptors }).wf(),
    ensures
        coordinate(absent_package().manager) is None,
        coordinate(absent_package().package_name) is None,
        coordinate(absent_package().version) is None,
        read_symbol(
            format_symbol(SymbolView::Global { scheme, package: absent_package(), descriptors }),
        ) == Ok::<SymbolView, Fault>(
            SymbolView::Global { scheme, package: absent_package(), descriptors },
        ),
{
    law_round_trip(SymbolView::Global { scheme, package: absent_package(), descriptors });
}

/// A text is canonical when it is the writer's rendering of some well-formed
/// symbol.
pub open spec fn is_canonical(t: Seq<char>) -> bool {
    exists|v: SymbolView| v.wf() && format_symbol(v) == t
}

/// Canonical stability: the reader accepts every canonical text, and the
/// writer renders what was read as that same text.
pub proof fn law_canonical_stable(t: Seq<char>)
    requires
        is_canonical(t),
    ensures
        match read_symbol(t) {
            Ok(v) => v.wf() && format_symbol(v) == t,
            Err(_) => false,
        },
{
    let v = choose|v: SymbolView| v.wf() && format_symbol(v) == t;
    law_round_trip(v);
}

/// Escaping: an identifier that holds a reserved character is rendered
/// between backticks, and the reader recovers exactly that identifier from
/// the rendering, up to its end.
pub proof fn law_escaped_identifier(id: Seq<char>)
    requires
        needs_escape(id),
    ensures
        escape(id).len() >= 2,
        escape(id).first() == '`',
        escape(id).last() == '`',
        read_ident(escape(id), 0) == Ok::<(Seq<char>, int), Fault>((id, escape(id).len() as int)),
{
    let s = escape(id);
    assert(suffix(s, 0) =~= s + Seq::<char>::empty());
    lemma_ident(s, 0, id, Seq::empty());
}

/// Bare identifiers: one that holds no reserved character is rendered as it
/// is, and the reader recovers it from the rendering.
pub proof fn law_bare_identifier(id: Seq<char>)
    requires
        !needs_escape(id),
    ensures
        escape(id) == id,
        read_ident(escape(id), 0) == Ok::<(Seq<char>, int), Fault>((id, id.len() as int)),
{
    let s = escape(id);
    assert(suffix(s, 0) =~= s + Seq::<char>::empty());
    lemma_ident(s, 0, id, Seq::empty());
}

} // verus!
