//! The format-template engine: compiles a template string into a sequence of
//! elements and renders them against a set of variable bindings.
//!
//! Template grammar, scanned left to right in one pass:
//! - `${name}` is a variable placeholder; `$` not followed by a braced name,
//!   or `${` never closed, is a syntax error.
//! - `[` ... `](style)` styles every element between the brackets with the
//!   text between the parentheses; groups do not nest, and a `[` inside a
//!   group, a `]` outside one, a `]` not followed by `(`, or an unclosed
//!   group or style is a syntax error.
//! - Every other character is literal text; maximal literal runs form one
//!   text element each, and elements outside a group carry the empty style.

use vstd::prelude::*;

use crate::diag::{Diagnostics, Level};

verus! {

/// The model of one compiled element: literal text or a variable placeholder,
/// each carrying the style of its enclosing group (empty outside groups).
#[verifier::ext_equal]
pub enum ElemModel {
    Text { text: Seq<char>, style: Seq<char> },
    Variable { name: Seq<char>, style: Seq<char> },
}

/// One compiled element.
pub enum Element {
    Text { text: String, style: String },
    Variable { name: String, style: String },
}

impl View for Element {
    type V = ElemModel;

    open spec fn view(&self) -> ElemModel {
        match self {
            Element::Text { text, style } => ElemModel::Text { text: text@, style: style@ },
            Element::Variable { name, style } => ElemModel::Variable {
                name: name@,
                style: style@,
            },
        }
    }
}

/// The model of a compiled element list.
pub open spec fn elems_model(v: Seq<Element>) -> Seq<ElemModel> {
    v.map_values(|e: Element| e@)
}

/// What the scanner is in the middle of reading.
#[verifier::ext_equal]
pub enum ScanMode {
    /// Literal text (possibly empty), inside or outside a group.
    Lit,
    /// Just after `$`: only `{` may follow.
    Dollar,
    /// Inside `${`...`}`: the name read so far.
    Name { name: Seq<char> },
    /// Just after a group's `]`: only `(` may follow.
    AfterClose,
    /// Inside `(`...`)`: the style read so far.
    Style { style: Seq<char> },
}

/// The scanner state: finished elements, the elements of an open group still
/// awaiting their style, the current literal run, and the mode.
#[verifier::ext_equal]
pub struct ScanSt {
    pub done: Seq<ElemModel>,
    pub group: Option<Seq<ElemModel>>,
    pub cur: Seq<char>,
    pub mode: ScanMode,
}

/// The element carrying the given style in place of its own.
pub open spec fn restyled(e: ElemModel, style: Seq<char>) -> ElemModel {
    match e {
        ElemModel::Text { text, .. } => ElemModel::Text { text, style },
        ElemModel::Variable { name, .. } => ElemModel::Variable { name, style },
    }
}

/// Every element of the list carrying the given style.
pub open spec fn with_style(elems: Seq<ElemModel>, style: Seq<char>) -> Seq<ElemModel> {
    Seq::new(elems.len(), |t: int| restyled(elems[t], style))
}

/// Appends a finished element to the open group if one is open, else to the
/// finished elements.
pub open spec fn push_elem(st: ScanSt, e: ElemModel) -> ScanSt {
    match st.group {
        Some(g) => ScanSt { group: Some(g.push(e)), ..st },
        None => ScanSt { done: st.done.push(e), ..st },
    }
}

/// Closes the current literal run: a non-empty run becomes a text element
/// with the empty style (a group's style is assigned when the group closes).
pub open spec fn flush_cur(st: ScanSt) -> ScanSt {
    if st.cur.len() == 0 {
        st
    } else {
        let st2 = push_elem(st, ElemModel::Text { text: st.cur, style: Seq::empty() });
        ScanSt { cur: Seq::empty(), ..st2 }
    }
}

/// One scanner step on character `c`; `None` is a syntax error.
pub open spec fn scan_step(st: ScanSt, c: char) -> Option<ScanSt> {
    match st.mode {
        ScanMode::Lit => {
            if c == '$' {
                Some(ScanSt { mode: ScanMode::Dollar, ..flush_cur(st) })
            } else if c == '[' {
                if st.group is Some {
                    None
                } else {
                    Some(
                        ScanSt {
                            group: Some(Seq::empty()),
                            mode: ScanMode::Lit,
                            ..flush_cur(st)
                        },
                    )
                }
            } else if c == ']' {
                if st.group is Some {
                    Some(ScanSt { mode: ScanMode::AfterClose, ..flush_cur(st) })
                } else {
                    None
                }
            } else {
                Some(ScanSt { cur: st.cur.push(c), ..st })
            }
        },
        ScanMode::Dollar => {
            if c == '{' {
                Some(ScanSt { mode: ScanMode::Name { name: Seq::empty() }, ..st })
            } else {
                None
            }
        },
        ScanMode::Name { name } => {
            if c == '}' {
                Some(
                    push_elem(
                        ScanSt { mode: ScanMode::Lit, ..st },
                        ElemModel::Variable { name, style: Seq::empty() },
                    ),
                )
            } else {
                Some(ScanSt { mode: ScanMode::Name { name: name.push(c) }, ..st })
            }
        },
        ScanMode::AfterClose => {
            if c == '(' {
                Some(ScanSt { mode: ScanMode::Style { style: Seq::empty() }, ..st })
            } else {
                None
            }
        },
        ScanMode::Style { style } => {
            if c == ')' {
                match st.group {
                    Some(g) => Some(
                        ScanSt {
                            done: st.done + with_style(g, style),
                            group: None,
                            cur: Seq::empty(),
                            mode: ScanMode::Lit,
                        },
                    ),
                    None => None,
                }
            } else {
                Some(ScanSt { mode: ScanMode::Style { style: style.push(c) }, ..st })
            }
        },
    }
}

/// The scanner's starting state.
pub open spec fn scan_init() -> ScanSt {
    ScanSt { done: Seq::empty(), group: None, cur: Seq::empty(), mode: ScanMode::Lit }
}

/// At the end of the text the scanner must stand in literal mode with no open
/// group; the last literal run is flushed.
pub open spec fn scan_finalize(st: ScanSt) -> Option<Seq<ElemModel>> {
    if st.mode is Lit && st.group is None {
        Some(flush_cur(st).done)
    } else {
        None
    }
}

/// Runs the scanner from position `i` in state `st` to the end of the text.
pub open spec fn scan_run(s: Seq<char>, i: int, st: ScanSt) -> Option<Seq<ElemModel>>
    decreases s.len() - i,
{
    if i < 0 || i >= s.len() {
        scan_finalize(st)
    } else {
        match scan_step(st, s[i]) {
            Some(st2) => scan_run(s, i + 1, st2),
            None => None,
        }
    }
}

/// The compiled form of a template: its element list, or nothing when the
/// template is malformed.
pub open spec fn template_elems(s: Seq<char>) -> Option<Seq<ElemModel>> {
    scan_run(s, 0, scan_init())
}

/// A malformed template.
#[derive(Debug)]
pub enum TemplateError {
    Syntax,
}

/// A compiled template, ready to render.
pub struct CompiledTemplate {
    pub elements: Vec<Element>,
}

impl View for CompiledTemplate {
    type V = Seq<ElemModel>;

    open spec fn view(&self) -> Seq<ElemModel> {
        elems_model(self.elements@)
    }
}

/// The scanner mode of the compiler, which keeps the run's characters in the
/// template itself and remembers only where the run began.
enum CMode {
    Lit,
    Dollar,
    Name,
    AfterClose,
    Style,
}

/// The scanner state the compiler's plain values stand for: runs are the
/// template text from `run_start` up to the cursor.
spec fn state_model(
    done: Seq<Element>,
    in_group: bool,
    group: Seq<Element>,
    mode: CMode,
    s: Seq<char>,
    run_start: int,
    i: int,
) -> ScanSt {
    ScanSt {
        done: elems_model(done),
        group: if in_group {
            Some(elems_model(group))
        } else {
            None
        },
        cur: if mode is Lit {
            s.subrange(run_start, i)
        } else {
            Seq::empty()
        },
        mode: match mode {
            CMode::Lit => ScanMode::Lit,
            CMode::Dollar => ScanMode::Dollar,
            CMode::Name => ScanMode::Name { name: s.subrange(run_start, i) },
            CMode::AfterClose => ScanMode::AfterClose,
            CMode::Style => ScanMode::Style { style: s.subrange(run_start, i) },
        },
    }
}

/// The scanner state with a literal run in progress.
spec fn lit_state(
    done: Seq<Element>,
    in_group: bool,
    group: Seq<Element>,
    cur: Seq<char>,
) -> ScanSt {
    ScanSt {
        done: elems_model(done),
        group: if in_group {
            Some(elems_model(group))
        } else {
            None
        },
        cur,
        mode: ScanMode::Lit,
    }
}

/// Closes the literal run `template[run_start..i)`: appends it, when
/// non-empty, as an unstyled text element of the open group or of the
/// finished elements.
fn flush_run(
    template: &str,
    run_start: usize,
    i: usize,
    done: &mut Vec<Element>,
    group: &mut Vec<Element>,
    in_group: bool,
)
    requires
        run_start <= i <= template@.len(),
    ensures
        lit_state(final(done)@, in_group, final(group)@, Seq::empty()) == flush_cur(
            lit_state(
                old(done)@,
                in_group,
                old(group)@,
                template@.subrange(run_start as int, i as int),
            ),
        ),
        !in_group ==> final(group)@ == old(group)@,
{
    let ghost cur = template@.subrange(run_start as int, i as int);
    if run_start < i {
        let text = String::from_str(template.substring_char(run_start, i));
        let el = Element::Text { text, style: String::new() };
        proof {
            assert(el@ == (ElemModel::Text { text: cur, style: Seq::<char>::empty() }));
        }
        if in_group {
            group.push(el);
            proof {
                assert(elems_model(group@) =~= elems_model(old(group)@).push(
                    ElemModel::Text { text: cur, style: Seq::empty() },
                ));
                assert(lit_state(done@, in_group, group@, Seq::empty()) =~~= flush_cur(
                    lit_state(old(done)@, in_group, old(group)@, cur),
                ));
            }
        } else {
            done.push(el);
            proof {
                assert(elems_model(done@) =~= elems_model(old(done)@).push(
                    ElemModel::Text { text: cur, style: Seq::empty() },
                ));
                assert(lit_state(done@, in_group, group@, Seq::empty()) =~~= flush_cur(
                    lit_state(old(done)@, in_group, old(group)@, cur),
                ));
            }
        }
    } else {
        proof {
            assert(cur.len() == 0);
            assert(lit_state(done@, in_group, group@, Seq::empty()) =~~= flush_cur(
                lit_state(old(done)@, in_group, old(group)@, cur),
            ));
        }
    }
}

/// Compiles a template into its element list, or reports that the template is
/// malformed — exactly when the scanner rejects it.
pub fn compile(template: &str) -> (r: Result<CompiledTemplate, TemplateError>)
    ensures
        r matches Ok(t) ==> template_elems(template@) == Some(t@),
        r is Err <==> template_elems(template@) is None,
{
    let ghost sv = template@;
    let n = template.unicode_len();
    let mut done: Vec<Element> = Vec::new();
    let mut group: Vec<Element> = Vec::new();
    let mut in_group = false;
    let mut mode = CMode::Lit;
    let mut run_start: usize = 0;
    let mut i: usize = 0;
    proof {
        assert(state_model(done@, in_group, group@, mode, sv, 0, 0) =~~= scan_init());
    }
    while i < n
        invariant
            0 <= i <= n,
            n == sv.len(),
            sv == template@,
            run_start <= i,
            !in_group ==> group@.len() == 0,
            mode is Style || mode is AfterClose ==> in_group,
            template_elems(sv) == scan_run(
                sv,
                i as int,
                state_model(done@, in_group, group@, mode, sv, run_start as int, i as int),
            ),
        decreases n - i,
    {
        let ghost st0 = state_model(
            done@,
            in_group,
            group@,
            mode,
            sv,
            run_start as int,
            i as int,
        );
        let c = template.get_char(i);
        match mode {
            CMode::Lit => {
                if c == '$' {
                    flush_run(template, run_start, i, &mut done, &mut group, in_group);
                    mode = CMode::Dollar;
                    run_start = i + 1;
                } else if c == '[' {
                    if in_group {
                        proof {
                            assert(scan_step(st0, sv[i as int]) is None);
                        }
                        return Err(TemplateError::Syntax);
                    }
                    flush_run(template, run_start, i, &mut done, &mut group, in_group);
                    in_group = true;
                    run_start = i + 1;
                } else if c == ']' {
                    if !in_group {
                        proof {
                            assert(scan_step(st0, sv[i as int]) is None);
                        }
                        return Err(TemplateError::Syntax);
                    }
                    flush_run(template, run_start, i, &mut done, &mut group, in_group);
                    mode = CMode::AfterClose;
                    run_start = i + 1;
                } else {
                    proof {
                        assert(sv.subrange(run_start as int, i as int).push(sv[i as int])
                            =~= sv.subrange(run_start as int, i + 1));
                    }
                }
            },
            CMode::Dollar => {
                if c == '{' {
                    mode = CMode::Name;
                    run_start = i + 1;
                } else {
                    proof {
                        assert(scan_step(st0, sv[i as int]) is None);
                    }
                    return Err(TemplateError::Syntax);
                }
            },
            CMode::Name => {
                if c == '}' {
                    let name = String::from_str(template.substring_char(run_start, i));
                    let el = Element::Variable { name, style: String::new() };
                    proof {
                        assert(el@ == (ElemModel::Variable {
                            name: sv.subrange(run_start as int, i as int),
                            style: Seq::<char>::empty(),
                        }));
                    }
                    let ghost gpre = elems_model(group@);
                    let ghost dpre = elems_model(done@);
                    if in_group {
                        group.push(el);
                        proof {
                            assert(elems_model(group@) =~= gpre.push(el@));
                        }
                    } else {
                        done.push(el);
                        proof {
                            assert(elems_model(done@) =~= dpre.push(el@));
                        }
                    }
                    mode = CMode::Lit;
                    run_start = i + 1;
                } else {
                    proof {
                        assert(sv.subrange(run_start as int, i as int).push(sv[i as int])
                            =~= sv.subrange(run_start as int, i + 1));
                    }
                }
            },
            CMode::AfterClose => {
                if c == '(' {
                    mode = CMode::Style;
                    run_start = i + 1;
                } else {
                    proof {
                        assert(scan_step(st0, sv[i as int]) is None);
                    }
                    return Err(TemplateError::Syntax);
                }
            },
            CMode::Style => {
                if c == ')' {
                    let ghost style = sv.subrange(run_start as int, i as int);
                    let ghost done0 = elems_model(done@);
                    let ghost g0 = elems_model(group@);
                    let gl = group.len();
                    let mut t: usize = 0;
                    while t < gl
                        invariant
                            0 <= t <= gl,
                            gl == group@.len(),
                            g0 == elems_model(group@),
                            run_start <= i < n,
                            n == sv.len(),
                            sv == template@,
                            style == sv.subrange(run_start as int, i as int),
                            elems_model(done@) =~= done0 + with_style(
                                g0.subrange(0, t as int),
                                style,
                            ),
                        decreases gl - t,
                    {
                        let style_text = String::from_str(
                            template.substring_char(run_start, i),
                        );
                        let styled = match &group[t] {
                            Element::Text { text, .. } => Element::Text {
                                text: text.clone(),
                                style: style_text,
                            },
                            Element::Variable { name, .. } => Element::Variable {
                                name: name.clone(),
                                style: style_text,
                            },
                        };
                        proof {
                            assert(styled@ == restyled(g0[t as int], style));
                        }
                        let ghost dpre = elems_model(done@);
                        done.push(styled);
                        proof {
                            assert(elems_model(done@) =~= dpre.push(styled@));
                            assert(with_style(g0.subrange(0, t + 1), style) =~= with_style(
                                g0.subrange(0, t as int),
                                style,
                            ).push(restyled(g0[t as int], style)));
                        }
                        t = t + 1;
                    }
                    group.clear();
                    in_group = false;
                    mode = CMode::Lit;
                    run_start = i + 1;
                    proof {
                        assert(g0.subrange(0, g0.len() as int) =~= g0);
                        assert(elems_model(done@) =~= done0 + with_style(g0, style));
                    }
                } else {
                    proof {
                        assert(sv.subrange(run_start as int, i as int).push(sv[i as int])
                            =~= sv.subrange(run_start as int, i + 1));
                    }
                }
            },
        }
        proof {
            let st1 = state_model(
                done@,
                in_group,
                group@,
                mode,
                sv,
                run_start as int,
                i + 1,
            );
            assert(scan_step(st0, sv[i as int]) matches Some(st) && st =~~= st1);
            assert(scan_run(sv, i as int, st0) == scan_run(sv, i + 1, st1));
        }
        i = i + 1;
    }
    let ghost st_end = state_model(
        done@,
        in_group,
        group@,
        mode,
        sv,
        run_start as int,
        i as int,
    );
    match mode {
        CMode::Lit => {
            if in_group {
                proof {
                    assert(scan_finalize(st_end) is None);
                }
                return Err(TemplateError::Syntax);
            }
            flush_run(template, run_start, i, &mut done, &mut group, in_group);
            let out = CompiledTemplate { elements: done };
            proof {
                assert(Some(out@) == scan_finalize(st_end));
            }
            Ok(out)
        },
        _ => {
            proof {
                assert(scan_finalize(st_end) is None);
            }
            Err(TemplateError::Syntax)
        },
    }
}

/// One styled, renderable fragment of a module's output.
pub struct Segment {
    pub value: String,
    pub style: String,
}

impl View for Segment {
    type V = (Seq<char>, Seq<char>);

    open spec fn view(&self) -> (Seq<char>, Seq<char>) {
        (self.value@, self.style@)
    }
}

/// The model of a segment list: (value, style) pairs in order.
pub open spec fn segments_model(v: Seq<Segment>) -> Seq<(Seq<char>, Seq<char>)> {
    v.map_values(|s: Segment| s@)
}

/// One variable binding handed to rendering.
pub struct VarBinding {
    pub name: String,
    pub value: String,
}

impl View for VarBinding {
    type V = (Seq<char>, Seq<char>);

    open spec fn view(&self) -> (Seq<char>, Seq<char>) {
        (self.name@, self.value@)
    }
}

/// The model of a binding list: (name, value) pairs in order.
pub open spec fn bindings_model(v: Seq<VarBinding>) -> Seq<(Seq<char>, Seq<char>)> {
    v.map_values(|b: VarBinding| b@)
}

/// The value of the first binding of the given name, from position `k` on.
pub open spec fn lookup_from(
    vars: Seq<(Seq<char>, Seq<char>)>,
    name: Seq<char>,
    k: int,
) -> Option<Seq<char>>
    decreases vars.len() - k,
{
    if k < 0 || k >= vars.len() {
        None
    } else if vars[k].0 == name {
        Some(vars[k].1)
    } else {
        lookup_from(vars, name, k + 1)
    }
}

/// The value bound to a variable name, or nothing.
pub open spec fn lookup(vars: Seq<(Seq<char>, Seq<char>)>, name: Seq<char>) -> Option<
    Seq<char>,
> {
    lookup_from(vars, name, 0)
}

/// The segments the elements from position `k` on render to: text elements
/// verbatim, resolved variables as their bound value, unresolved variables
/// omitted; each segment keeps its element's style.
pub open spec fn render_from(
    elems: Seq<ElemModel>,
    vars: Seq<(Seq<char>, Seq<char>)>,
    k: int,
) -> Seq<(Seq<char>, Seq<char>)>
    decreases elems.len() - k,
{
    if k < 0 || k >= elems.len() {
        Seq::empty()
    } else {
        (match elems[k] {
            ElemModel::Text { text, style } => seq![(text, style)],
            ElemModel::Variable { name, style } => match lookup(vars, name) {
                Some(v) => seq![(v, style)],
                None => Seq::empty(),
            },
        }) + render_from(elems, vars, k + 1)
    }
}

/// What a whole element list renders to.
pub open spec fn rendered_segments(
    elems: Seq<ElemModel>,
    vars: Seq<(Seq<char>, Seq<char>)>,
) -> Seq<(Seq<char>, Seq<char>)> {
    render_from(elems, vars, 0)
}

/// The debug entry logged for a variable no binding resolves.
pub open spec fn unknown_variable_message(name: Seq<char>) -> Seq<char> {
    "unknown format string variable: "@ + name
}

/// The debug entries rendering emits for the elements from position `k` on:
/// one per unresolved variable, in element order.
pub open spec fn unresolved_from(
    elems: Seq<ElemModel>,
    vars: Seq<(Seq<char>, Seq<char>)>,
    k: int,
) -> Seq<(Level, Seq<char>)>
    decreases elems.len() - k,
{
    if k < 0 || k >= elems.len() {
        Seq::empty()
    } else {
        (match elems[k] {
            ElemModel::Variable { name, .. } => if lookup(vars, name) is None {
                seq![(Level::Debug, unknown_variable_message(name))]
            } else {
                Seq::empty()
            },
            ElemModel::Text { .. } => Seq::empty(),
        }) + unresolved_from(elems, vars, k + 1)
    }
}

/// The value bound to `name`, cloned so the template may use a variable more
/// than once.
fn lookup_value(vars: &Vec<VarBinding>, name: &String) -> (r: Option<String>)
    ensures
        match r {
            Some(v) => lookup(bindings_model(vars@), name@) == Some(v@),
            None => lookup(bindings_model(vars@), name@) is None,
        },
{
    let n = vars.len();
    let mut k: usize = 0;
    while k < n
        invariant
            0 <= k <= n,
            n == vars.len(),
            lookup(bindings_model(vars@), name@) == lookup_from(
                bindings_model(vars@),
                name@,
                k as int,
            ),
        decreases n - k,
    {
        let b = &vars[k];
        if b.name == *name {
            return Some(b.value.clone());
        }
        k = k + 1;
    }
    None
}

impl CompiledTemplate {
    /// Renders the compiled elements against the given bindings: text comes
    /// through verbatim, a bound variable becomes its value, and an unbound
    /// one is omitted with a debug entry logged — never a failure. Each
    /// segment carries its element's style.
    pub fn render(&self, vars: &Vec<VarBinding>, diag: &mut Diagnostics) -> (segs: Vec<
        Segment,
    >)
        ensures
            segments_model(segs@) == rendered_segments(self@, bindings_model(vars@)),
            final(diag)@ == old(diag)@ + unresolved_from(self@, bindings_model(vars@), 0),
    {
        let ghost em = self@;
        let ghost vm = bindings_model(vars@);
        let ghost dstart = old(diag)@;
        let mut segs: Vec<Segment> = Vec::new();
        let n = self.elements.len();
        let mut k: usize = 0;
        proof {
            assert(Seq::<(Seq<char>, Seq<char>)>::empty() + render_from(em, vm, 0)
                =~= render_from(em, vm, 0));
            assert(dstart + unresolved_from(em, vm, 0) =~= diag@ + unresolved_from(em, vm, 0));
        }
        while k < n
            invariant
                0 <= k <= n,
                n == self.elements@.len(),
                em == self@,
                vm == bindings_model(vars@),
                rendered_segments(em, vm) == segments_model(segs@) + render_from(
                    em,
                    vm,
                    k as int,
                ),
                dstart + unresolved_from(em, vm, 0) == diag@ + unresolved_from(
                    em,
                    vm,
                    k as int,
                ),
            decreases n - k,
        {
            let ghost spre = segments_model(segs@);
            match &self.elements[k] {
                Element::Text { text, style } => {
                    let seg = Segment { value: text.clone(), style: style.clone() };
                    proof {
                        assert(seg@ == (text@, style@));
                    }
                    segs.push(seg);
                    proof {
                        assert(segments_model(segs@) =~= spre.push((text@, style@)));
                        assert(spre.push((text@, style@)) + render_from(em, vm, k + 1)
                            =~= spre + render_from(em, vm, k as int));
                    }
                },
                Element::Variable { name, style } => {
                    match lookup_value(vars, name) {
                        Some(v) => {
                            let ghost vv = v@;
                            let seg = Segment { value: v, style: style.clone() };
                            segs.push(seg);
                            proof {
                                assert(segments_model(segs@) =~= spre.push((vv, style@)));
                                assert(spre.push((vv, style@)) + render_from(em, vm, k + 1)
                                    =~= spre + render_from(em, vm, k as int));
                            }
                        },
                        None => {
                            let mut message = String::new();
                            message.append("unknown format string variable: ");
                            message.append(name.as_str());
                            let ghost dpre = diag@;
                            proof {
                                assert(message@ =~= unknown_variable_message(name@));
                            }
                            diag.log(Level::Debug, message);
                            proof {
                                assert(dpre.push((Level::Debug, unknown_variable_message(name@)))
                                    + unresolved_from(em, vm, k + 1) =~= dpre + unresolved_from(
                                    em,
                                    vm,
                                    k as int,
                                ));
                                assert(spre + render_from(em, vm, k + 1) =~= spre + render_from(
                                    em,
                                    vm,
                                    k as int,
                                ));
                            }
                        },
                    }
                },
            }
            k = k + 1;
        }
        proof {
            assert(segments_model(segs@) + render_from(em, vm, n as int)
                =~= segments_model(segs@));
            assert(diag@ + unresolved_from(em, vm, n as int) =~= diag@);
        }
        segs
    }
}

} // verus!
