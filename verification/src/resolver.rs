//! The resolver: consumes a token list against one grammar node and
//! produces a typed result with an accumulated error list, recursing into
//! a child node when a sub-command name is encountered.
//!
//! [`spec_resolve`] is the whole algorithm as one mathematical function;
//! [`crate::parser::Parser::parse`] is proved to return exactly its value.

use vstd::prelude::*;

use crate::argument::DataType;
use crate::argument::OptionArgument;
use crate::argument::OptionArgumentView;
use crate::argument::PositionalArgument;
use crate::argument::PositionalArgumentView;
use crate::argument::effective_optionality;
use crate::error::spec_invalid_default;
use crate::error::spec_invalid_value;
use crate::error::spec_missing_option;
use crate::error::spec_missing_positional;
use crate::error::spec_no_sub_command_chosen;
use crate::error::spec_no_value_provided;
use crate::error::spec_unknown_sub_command;
use crate::error::spec_unrecognized_option;
use crate::error::spec_unrecognized_positional;
use crate::parsed::ParsedArgumentView;
use crate::parsed::bool_of_literal;
use crate::parsed::spec_from_value;
use crate::parser::ParserView;
use crate::parser::SubEntryView;
use crate::result::ParseResultView;
use crate::unparsed::OptionalityView;

verus! {

/// The views of a list of positional descriptors.
pub open spec fn pos_views(v: Seq<PositionalArgument>) -> Seq<PositionalArgumentView> {
    v.map_values(|q: PositionalArgument| q@)
}

/// The views of a list of option descriptors.
pub open spec fn opt_views(v: Seq<OptionArgument>) -> Seq<OptionArgumentView> {
    v.map_values(|o: OptionArgument| o@)
}

/// The scan's working state: the remaining descriptor lists and the
/// result accumulated so far.
#[verifier::ext_equal]
pub ghost struct ScanState {
    pub positionals: Seq<PositionalArgumentView>,
    pub options: Seq<OptionArgumentView>,
    pub result: ParseResultView,
}

/// How the scan ended: with the tokens exhausted (or a hard stop), or
/// with a sub-command selected that owns the tokens from `rest` on.
pub ghost enum ScanOutcome {
    Finished,
    Selected { child: int, name: Seq<char>, rest: int },
}

/// The scan's final state and outcome.
#[verifier::ext_equal]
pub ghost struct ScanOut {
    pub state: ScanState,
    pub outcome: ScanOutcome,
}

/// The first option at or after `k` whose short name is `name`.
pub open spec fn find_short_from(
    options: Seq<OptionArgumentView>,
    k: int,
    name: Seq<char>,
) -> Option<int>
    decreases options.len() - k,
{
    if !(0 <= k < options.len()) {
        None
    } else if options[k].short_name == Some(name) {
        Some(k)
    } else {
        find_short_from(options, k + 1, name)
    }
}

/// The first option at or after `k` whose long name is `name`.
pub open spec fn find_long_from(
    options: Seq<OptionArgumentView>,
    k: int,
    name: Seq<char>,
) -> Option<int>
    decreases options.len() - k,
{
    if !(0 <= k < options.len()) {
        None
    } else if options[k].long_name == Some(name) {
        Some(k)
    } else {
        find_long_from(options, k + 1, name)
    }
}

/// The first child at or after `k` registered under `name`.
pub open spec fn find_child_from(
    children: Seq<SubEntryView>,
    k: int,
    name: Seq<char>,
) -> Option<int>
    decreases children.len() - k,
{
    if !(0 <= k < children.len()) {
        None
    } else if children[k].name == name {
        Some(k)
    } else {
        find_child_from(children, k + 1, name)
    }
}

/// The value a toggled flag takes: the logical negation of its single
/// boolean default, and `true` for a flag without a usable default.
pub open spec fn toggle_value(o: OptionArgumentView) -> bool {
    match o.default_values {
        Some(ds) => if ds.len() == 1 {
            match bool_of_literal(ds[0]) {
                Some(b) => !b,
                None => true,
            }
        } else {
            true
        },
        None => true,
    }
}

/// One pass over the tokens from index `i` on: per token, in order, an
/// option match, a positional match, a sub-command selection, or a
/// recorded error, exactly as the token-consumption steps prescribe.
pub open spec fn spec_scan(
    children: Seq<SubEntryView>,
    st: ScanState,
    toks: Seq<Seq<char>>,
    i: int,
) -> ScanOut
    decreases toks.len() - i,
{
    if i < 0 || i >= toks.len() {
        ScanOut { state: st, outcome: ScanOutcome::Finished }
    } else {
        let t = toks[i];
        if t.len() >= 1 && t[0] == '-' {
            let lookup = if t.len() >= 2 && t[1] == '-' {
                find_long_from(st.options, 0, t.skip(2))
            } else {
                find_short_from(st.options, 0, t.skip(1))
            };
            match lookup {
                None => spec_scan(
                    children,
                    ScanState { result: st.result.with_error(spec_unrecognized_option(t)), ..st },
                    toks,
                    i + 1,
                ),
                Some(j) => {
                    let o = st.options[j];
                    let remaining = st.options.remove(j);
                    if o.data_type == DataType::Bool(false) {
                        spec_scan(
                            children,
                            ScanState {
                                options: remaining,
                                result: st.result.with_single(
                                    o.destination,
                                    ParsedArgumentView::Bool(toggle_value(o)),
                                ),
                                ..st
                            },
                            toks,
                            i + 1,
                        )
                    } else if i + 1 >= toks.len() {
                        ScanOut {
                            state: ScanState {
                                options: remaining,
                                result: st.result.with_error(
                                    spec_no_value_provided(o.as_unparsed().display_name()),
                                ),
                                ..st
                            },
                            outcome: ScanOutcome::Finished,
                        }
                    } else {
                        let raw = toks[i + 1];
                        match spec_from_value(raw, o.data_type) {
                            Err(_) => spec_scan(
                                children,
                                ScanState {
                                    options: remaining,
                                    result: st.result.with_error(
                                        spec_invalid_value(
                                            o.as_unparsed().is_option(),
                                            o.as_unparsed().display_name(),
                                            raw,
                                        ),
                                    ),
                                    ..st
                                },
                                toks,
                                i + 2,
                            ),
                            Ok(v) => if o.data_type.spec_is_array() {
                                spec_scan(
                                    children,
                                    ScanState {
                                        options: remaining.push(o),
                                        result: st.result.with_array_pushed(o.destination, v),
                                        ..st
                                    },
                                    toks,
                                    i + 2,
                                )
                            } else {
                                spec_scan(
                                    children,
                                    ScanState {
                                        options: remaining,
                                        result: st.result.with_single(o.destination, v),
                                        ..st
                                    },
                                    toks,
                                    i + 2,
                                )
                            },
                        }
                    }
                },
            }
        } else if st.positionals.len() > 0 {
            let q = st.positionals[0];
            let remaining = st.positionals.skip(1);
            match spec_from_value(t, q.data_type) {
                Err(_) => spec_scan(
                    children,
                    ScanState {
                        positionals: remaining,
                        result: st.result.with_error(
                            spec_invalid_value(false, q.destination, t),
                        ),
                        ..st
                    },
                    toks,
                    i + 1,
                ),
                Ok(v) => if q.data_type.spec_is_array() {
                    spec_scan(
                        children,
                        ScanState {
                            positionals: seq![q] + remaining,
                            result: st.result.with_array_pushed(q.destination, v),
                            ..st
                        },
                        toks,
                        i + 1,
                    )
                } else {
                    spec_scan(
                        children,
                        ScanState {
                            positionals: remaining,
                            result: st.result.with_single(q.destination, v),
                            ..st
                        },
                        toks,
                        i + 1,
                    )
                },
            }
        } else if children.len() > 0 {
            match find_child_from(children, 0, t) {
                Some(k) => ScanOut {
                    state: st,
                    outcome: ScanOutcome::Selected {
                        child: children[k].node,
                        name: t,
                        rest: i + 1,
                    },
                },
                None => ScanOut {
                    state: ScanState {
                        result: st.result.with_error(spec_unknown_sub_command(t)),
                        ..st
                    },
                    outcome: ScanOutcome::Finished,
                },
            }
        } else {
            spec_scan(
                children,
                ScanState {
                    result: st.result.with_error(spec_unrecognized_positional(t)),
                    ..st
                },
                toks,
                i + 1,
            )
        }
    }
}

/// Decodes and stores each default in order, exactly as a live value
/// would be stored.
pub open spec fn apply_defaults(
    destination: Seq<char>,
    data_type: DataType,
    ds: Seq<Seq<char>>,
    r: ParseResultView,
) -> ParseResultView
    decreases ds.len(),
{
    if ds.len() == 0 {
        r
    } else {
        let r2 = match spec_from_value(ds[0], data_type) {
            Err(_) => r.with_error(spec_invalid_default(ds[0])),
            Ok(v) => if data_type.spec_is_array() {
                r.with_array_pushed(destination, v)
            } else {
                r.with_single(destination, v)
            },
        };
        apply_defaults(destination, data_type, ds.skip(1), r2)
    }
}

/// What one unmatched positional contributes after token exhaustion: a
/// missing-argument error if it is effectively required, its defaults if
/// it has them, and nothing if it is optional — all skipped when the
/// destination was already populated.
pub open spec fn settle_positional(
    q: PositionalArgumentView,
    r: ParseResultView,
) -> ParseResultView {
    if r.contains_dest(q.destination) {
        r
    } else {
        match effective_optionality(q.is_required, q.defaults) {
            OptionalityView::Required => r.with_error(spec_missing_positional(q.destination)),
            OptionalityView::Optional => r,
            OptionalityView::Default(ds) => apply_defaults(q.destination, q.data_type, ds, r),
        }
    }
}

/// Settles every leftover positional, in order.
pub open spec fn finish_positionals(
    ps: Seq<PositionalArgumentView>,
    r: ParseResultView,
) -> ParseResultView
    decreases ps.len(),
{
    if ps.len() == 0 {
        r
    } else {
        finish_positionals(ps.skip(1), settle_positional(ps[0], r))
    }
}

/// What one unmatched option contributes after token exhaustion.
pub open spec fn settle_option(o: OptionArgumentView, r: ParseResultView) -> ParseResultView {
    if r.contains_dest(o.destination) {
        r
    } else {
        match effective_optionality(o.is_required, o.default_values) {
            OptionalityView::Required => r.with_error(spec_missing_option(o.destination)),
            OptionalityView::Optional => r,
            OptionalityView::Default(ds) => apply_defaults(o.destination, o.data_type, ds, r),
        }
    }
}

/// Settles every leftover option, in order.
pub open spec fn finish_options(
    os: Seq<OptionArgumentView>,
    r: ParseResultView,
) -> ParseResultView
    decreases os.len(),
{
    if os.len() == 0 {
        r
    } else {
        finish_options(os.skip(1), settle_option(os[0], r))
    }
}

/// The result of resolving `toks` against node `node` of the grammar
/// `p`: the scan over the tokens, the recursive resolution of a selected
/// sub-command, the defaults-and-requiredness pass over the leftover
/// descriptors, and the final sub-command check.
pub open spec fn spec_resolve(p: ParserView, node: int, toks: Seq<Seq<char>>) -> ParseResultView
    decreases toks.len(),
{
    if !p.valid(node) {
        ParseResultView::empty()
    } else {
        let n = p.nodes[node];
        let out = spec_scan(
            n.children,
            ScanState {
                positionals: n.positionals,
                options: n.options,
                result: ParseResultView::empty(),
            },
            toks,
            0,
        );
        let selected = out.outcome is Selected;
        let with_child = match out.outcome {
            ScanOutcome::Selected { child, name, rest } => if p.valid(child) && 1 <= rest
                <= toks.len() {
                ParseResultView {
                    child: Some((name, Box::new(spec_resolve(p, child, toks.skip(rest))))),
                    ..out.state.result
                }
            } else {
                out.state.result
            },
            ScanOutcome::Finished => out.state.result,
        };
        let r2 = finish_positionals(out.state.positionals, with_child);
        let r3 = finish_options(out.state.options, r2);
        if n.children.len() > 0 && !selected {
            r3.with_error(spec_no_sub_command_chosen())
        } else {
            r3
        }
    }
}

// ---------------------------------------------------------------------------
// The executable resolver.
// ---------------------------------------------------------------------------

/// Copies one option descriptor.
fn clone_option_arg(o: &OptionArgument) -> (r: OptionArgument)
    ensures
        r@ == o@,
{
    OptionArgument {
        short_name: crate::unparsed::clone_opt_string(&o.short_name),
        long_name: crate::unparsed::clone_opt_string(&o.long_name),
        destination: crate::unparsed::clone_string(&o.destination),
        data_type: o.data_type,
        is_required: o.is_required,
        default_values: crate::unparsed::clone_opt_string_vec(&o.default_values),
    }
}

/// Copies one positional descriptor.
fn clone_positional_arg(q: &PositionalArgument) -> (r: PositionalArgument)
    ensures
        r@ == q@,
{
    PositionalArgument {
        destination: crate::unparsed::clone_string(&q.destination),
        data_type: q.data_type,
        is_required: q.is_required,
        defaults: crate::unparsed::clone_opt_string_vec(&q.defaults),
    }
}

/// Copies a node's option list into a working list.
fn clone_options(v: &Vec<OptionArgument>) -> (r: Vec<OptionArgument>)
    ensures
        opt_views(r@) == opt_views(v@),
{
    let mut r: Vec<OptionArgument> = Vec::new();
    let mut i: usize = 0;
    while i < v.len()
        invariant
            i <= v.len(),
            r@.len() == i,
            forall|j: int| 0 <= j < i ==> r@[j]@ == #[trigger] v@[j]@,
        decreases v.len() - i,
    {
        r.push(clone_option_arg(&v[i]));
        i = i + 1;
    }
    proof {
        assert(opt_views(r@) =~= opt_views(v@));
    }
    r
}

/// Copies a node's positional list into a working list.
fn clone_positionals(v: &Vec<PositionalArgument>) -> (r: Vec<PositionalArgument>)
    ensures
        pos_views(r@) == pos_views(v@),
{
    let mut r: Vec<PositionalArgument> = Vec::new();
    let mut i: usize = 0;
    while i < v.len()
        invariant
            i <= v.len(),
            r@.len() == i,
            forall|j: int| 0 <= j < i ==> r@[j]@ == #[trigger] v@[j]@,
        decreases v.len() - i,
    {
        r.push(clone_positional_arg(&v[i]));
        i = i + 1;
    }
    proof {
        assert(pos_views(r@) =~= pos_views(v@));
    }
    r
}

/// Finds the first remaining option carrying the short name `name`.
fn find_short_exec(options: &Vec<OptionArgument>, name: &str) -> (r: Option<usize>)
    ensures
        match r {
            Some(j) => find_short_from(opt_views(options@), 0, name@) == Some(j as int) && j
                < options.len(),
            None => find_short_from(opt_views(options@), 0, name@) is None,
        },
{
    let mut i: usize = 0;
    while i < options.len()
        invariant
            i <= options.len(),
            find_short_from(opt_views(options@), 0, name@) == find_short_from(
                opt_views(options@),
                i as int,
                name@,
            ),
        decreases options.len() - i,
    {
        match &options[i].short_name {
            Some(s) => if crate::parsed::str_eq(s.as_str(), name) {
                assert(opt_views(options@)[i as int].short_name == Some(name@));
                return Some(i);
            },
            None => {},
        }
        assert(opt_views(options@)[i as int].short_name != Some(name@));
        i = i + 1;
    }
    None
}

/// Finds the first remaining option carrying the long name `name`.
fn find_long_exec(options: &Vec<OptionArgument>, name: &str) -> (r: Option<usize>)
    ensures
        match r {
            Some(j) => find_long_from(opt_views(options@), 0, name@) == Some(j as int) && j
                < options.len(),
            None => find_long_from(opt_views(options@), 0, name@) is None,
        },
{
    let mut i: usize = 0;
    while i < options.len()
        invariant
            i <= options.len(),
            find_long_from(opt_views(options@), 0, name@) == find_long_from(
                opt_views(options@),
                i as int,
                name@,
            ),
        decreases options.len() - i,
    {
        match &options[i].long_name {
            Some(l) => if crate::parsed::str_eq(l.as_str(), name) {
                assert(opt_views(options@)[i as int].long_name == Some(name@));
                return Some(i);
            },
            None => {},
        }
        assert(opt_views(options@)[i as int].long_name != Some(name@));
        i = i + 1;
    }
    None
}

/// Finds the first child registered under `name`.
fn find_child_exec(children: &Vec<crate::parser::SubEntry>, name: &str) -> (r: Option<usize>)
    ensures
        match r {
            Some(k) => find_child_from(
                children@.map_values(|c: crate::parser::SubEntry| c@),
                0,
                name@,
            ) == Some(k as int) && k < children.len(),
            None => find_child_from(
                children@.map_values(|c: crate::parser::SubEntry| c@),
                0,
                name@,
            ) is None,
        },
{
    let ghost cs = children@.map_values(|c: crate::parser::SubEntry| c@);
    let mut i: usize = 0;
    while i < children.len()
        invariant
            i <= children.len(),
            cs == children@.map_values(|c: crate::parser::SubEntry| c@),
            find_child_from(cs, 0, name@) == find_child_from(cs, i as int, name@),
        decreases children.len() - i,
    {
        if crate::parsed::str_eq(children[i].name.as_str(), name) {
            assert(cs[i as int].name == name@);
            return Some(i);
        }
        assert(cs[i as int].name != name@);
        i = i + 1;
    }
    None
}

/// Computes the value a toggled flag takes.
fn toggle_of(o: &OptionArgument) -> (r: bool)
    ensures
        r == toggle_value(o@),
{
    match &o.default_values {
        Some(ds) => if ds.len() == 1 {
            if crate::parsed::str_eq(ds[0].as_str(), "true") {
                false
            } else if crate::parsed::str_eq(ds[0].as_str(), "false") {
                true
            } else {
                true
            }
        } else {
            true
        },
        None => true,
    }
}

impl crate::parser::Parser {
    /// One pass over the tokens from index `i` on, against the children
    /// of `node` and the given working state: the executable mirror of
    /// [`spec_scan`].
    fn scan_exec(
        &self,
        node: usize,
        args: &Vec<String>,
        i: usize,
        positionals: Vec<PositionalArgument>,
        options: Vec<OptionArgument>,
        result: crate::result::ParseResult,
    ) -> (out: (
        Vec<PositionalArgument>,
        Vec<OptionArgument>,
        crate::result::ParseResult,
        Option<(String, usize, usize)>,
    ))
        requires
            self@.wf(),
            self@.valid(node as int),
            i <= args@.len(),
        ensures
            ({
                let sout = spec_scan(
                    self@.nodes[node as int].children,
                    ScanState {
                        positionals: pos_views(positionals@),
                        options: opt_views(options@),
                        result: result@,
                    },
                    args.deep_view(),
                    i as int,
                );
                &&& pos_views(out.0@) == sout.state.positionals
                &&& opt_views(out.1@) == sout.state.options
                &&& out.2@ == sout.state.result
                &&& match out.3 {
                    None => sout.outcome is Finished,
                    Some(sel) => sout.outcome == (ScanOutcome::Selected {
                        child: sel.1 as int,
                        name: sel.0@,
                        rest: sel.2 as int,
                    }) && sel.1 < self@.nodes.len() && i < sel.2 <= args@.len(),
                }
            }),
        decreases args@.len() - i,
    {
        let ghost children = self@.nodes[node as int].children;
        let ghost toks = args.deep_view();
        let ghost st = ScanState {
            positionals: pos_views(positionals@),
            options: opt_views(options@),
            result: result@,
        };
        if i >= args.len() {
            return (positionals, options, result, None);
        }
        let t = &args[i];
        proof {
            assert(t@ == toks[i as int]);
        }
        let tn = t.as_str().unicode_len();
        let is_dash = tn >= 1 && t.as_str().get_char(0) as u32 == 45;
        proof {
            assert(is_dash == (t@.len() >= 1 && t@[0] == '-'));
        }
        if is_dash {
            let long = tn >= 2 && t.as_str().get_char(1) as u32 == 45;
            proof {
                assert(long == (t@.len() >= 2 && t@[1] == '-'));
            }
            let name_start: usize = if long {
                2
            } else {
                1
            };
            let name = t.as_str().substring_char(name_start, tn);
            proof {
                if long {
                    assert(name@ =~= t@.skip(2));
                } else {
                    assert(name@ =~= t@.skip(1));
                }
            }
            let found = if long {
                find_long_exec(&options, name)
            } else {
                find_short_exec(&options, name)
            };
            match found {
                None => {
                    let mut result = result;
                    result.add_error(crate::error::unrecognized_option(t.as_str()));
                    proof {
                        let st2 = ScanState {
                            result: st.result.with_error(spec_unrecognized_option(toks[i as int])),
                            ..st
                        };
                        assert(ScanState {
                            positionals: pos_views(positionals@),
                            options: opt_views(options@),
                            result: result@,
                        } =~~= st2);
                    }
                    self.scan_exec(node, args, i + 1, positionals, options, result)
                },
                Some(j) => {
                    let mut options = options;
                    let mut result = result;
                    let ghost o_view = st.options[j as int];
                    let o = options.remove(j);
                    proof {
                        assert(o@ == o_view);
                        assert(opt_views(options@) =~= st.options.remove(j as int));
                    }
                    let plain_bool = match o.data_type {
                        DataType::Bool(is_array) => !is_array,
                        _ => false,
                    };
                    if plain_bool {
                        assert(o_view.data_type == DataType::Bool(false));
                        let v = toggle_of(&o);
                        result.add_single_value(
                            o.destination.as_str(),
                            crate::parsed::ParsedArgument::Bool(v),
                        );
                        proof {
                            let st2 = ScanState {
                                options: st.options.remove(j as int),
                                result: st.result.with_single(
                                    o_view.destination,
                                    ParsedArgumentView::Bool(toggle_value(o_view)),
                                ),
                                ..st
                            };
                            assert(ScanState {
                                positionals: pos_views(positionals@),
                                options: opt_views(options@),
                                result: result@,
                            } =~~= st2);
                        }
                        self.scan_exec(node, args, i + 1, positionals, options, result)
                    } else if i + 1 >= args.len() {
                        assert(!(o_view.data_type == DataType::Bool(false)));
                        let u = o.to_unparsed();
                        result.add_error(crate::error::no_value_provided(&u));
                        proof {
                            assert(opt_views(options@) =~= st.options.remove(j as int));
                            assert(result@ == st.result.with_error(
                                spec_no_value_provided(o_view.as_unparsed().display_name()),
                            ));
                        }
                        (positionals, options, result, None)
                    } else {
                        let raw = &args[i + 1];
                        proof {
                            assert(raw@ == toks[i as int + 1]);
                        }
                        match crate::parsed::ParsedArgument::from_value(
                            raw.as_str(),
                            o.data_type,
                        ) {
                            Err(_) => {
                                let u = o.to_unparsed();
                                result.add_error(crate::error::invalid_value(&u, raw.as_str()));
                                proof {
                                    assert(u@.display_name()
                                        == o_view.as_unparsed().display_name());
                                    let st2 = ScanState {
                                        options: st.options.remove(j as int),
                                        result: st.result.with_error(
                                            spec_invalid_value(
                                                o_view.as_unparsed().is_option(),
                                                o_view.as_unparsed().display_name(),
                                                toks[i as int + 1],
                                            ),
                                        ),
                                        ..st
                                    };
                                    assert(ScanState {
                                        positionals: pos_views(positionals@),
                                        options: opt_views(options@),
                                        result: result@,
                                    } =~~= st2);
                                }
                                self.scan_exec(node, args, i + 2, positionals, options, result)
                            },
                            Ok(v) => {
                                if o.data_type.is_array() {
                                    result.add_array_value(o.destination.as_str(), v);
                                    options.push(o);
                                    proof {
                                        let st2 = ScanState {
                                            options: st.options.remove(j as int).push(o_view),
                                            result: st.result.with_array_pushed(
                                                o_view.destination,
                                                spec_from_value(
                                                    toks[i as int + 1],
                                                    o_view.data_type,
                                                )->Ok_0,
                                            ),
                                            ..st
                                        };
                                        assert(opt_views(options@) =~= st.options.remove(
                                            j as int,
                                        ).push(o_view));
                                        assert(ScanState {
                                            positionals: pos_views(positionals@),
                                            options: opt_views(options@),
                                            result: result@,
                                        } =~~= st2);
                                    }
                                    self.scan_exec(node, args, i + 2, positionals, options, result)
                                } else {
                                    result.add_single_value(o.destination.as_str(), v);
                                    proof {
                                        let st2 = ScanState {
                                            options: st.options.remove(j as int),
                                            result: st.result.with_single(
                                                o_view.destination,
                                                spec_from_value(
                                                    toks[i as int + 1],
                                                    o_view.data_type,
                                                )->Ok_0,
                                            ),
                                            ..st
                                        };
                                        assert(ScanState {
                                            positionals: pos_views(positionals@),
                                            options: opt_views(options@),
                                            result: result@,
                                        } =~~= st2);
                                    }
                                    self.scan_exec(node, args, i + 2, positionals, options, result)
                                }
                            },
                        }
                    }
                },
            }
        } else if positionals.len() > 0 {
            let mut positionals = positionals;
            let mut result = result;
            let ghost q_view = st.positionals[0];
            let q = positionals.remove(0);
            proof {
                assert(q@ == q_view);
                assert(pos_views(positionals@) =~= st.positionals.skip(1));
            }
            match crate::parsed::ParsedArgument::from_value(t.as_str(), q.data_type) {
                Err(_) => {
                    let u = q.to_unparsed();
                    result.add_error(crate::error::invalid_value(&u, t.as_str()));
                    proof {
                        assert(!u@.is_option());
                        assert(u@.display_name() == q_view.destination);
                        let st2 = ScanState {
                            positionals: st.positionals.skip(1),
                            result: st.result.with_error(
                                spec_invalid_value(false, q_view.destination, toks[i as int]),
                            ),
                            ..st
                        };
                        assert(ScanState {
                            positionals: pos_views(positionals@),
                            options: opt_views(options@),
                            result: result@,
                        } =~~= st2);
                    }
                    self.scan_exec(node, args, i + 1, positionals, options, result)
                },
                Ok(v) => {
                    if q.data_type.is_array() {
                        result.add_array_value(q.destination.as_str(), v);
                        positionals.insert(0, q);
                        proof {
                            let st2 = ScanState {
                                positionals: seq![q_view] + st.positionals.skip(1),
                                result: st.result.with_array_pushed(
                                    q_view.destination,
                                    spec_from_value(toks[i as int], q_view.data_type)->Ok_0,
                                ),
                                ..st
                            };
                            assert(pos_views(positionals@) =~= seq![q_view] + st.positionals.skip(
                                1,
                            ));
                            assert(ScanState {
                                positionals: pos_views(positionals@),
                                options: opt_views(options@),
                                result: result@,
                            } =~~= st2);
                        }
                        self.scan_exec(node, args, i + 1, positionals, options, result)
                    } else {
                        result.add_single_value(q.destination.as_str(), v);
                        proof {
                            let st2 = ScanState {
                                positionals: st.positionals.skip(1),
                                result: st.result.with_single(
                                    q_view.destination,
                                    spec_from_value(toks[i as int], q_view.data_type)->Ok_0,
                                ),
                                ..st
                            };
                            assert(ScanState {
                                positionals: pos_views(positionals@),
                                options: opt_views(options@),
                                result: result@,
                            } =~~= st2);
                        }
                        self.scan_exec(node, args, i + 1, positionals, options, result)
                    }
                },
            }
        } else if self.nodes[node].children.len() > 0 {
            match find_child_exec(&self.nodes[node].children, t.as_str()) {
                Some(k) => {
                    let c = self.nodes[node].children[k].node;
                    proof {
                        assert(children[k as int].node == c);
                        assert(self@.children_linked(node as int));
                        assert(c < self@.nodes.len());
                    }
                    let name = crate::unparsed::clone_string(t);
                    (positionals, options, result, Some((name, c, i + 1)))
                },
                None => {
                    let mut result = result;
                    result.add_error(crate::error::unknown_sub_command(t.as_str()));
                    proof {
                        assert(result@ == st.result.with_error(
                            spec_unknown_sub_command(toks[i as int]),
                        ));
                    }
                    (positionals, options, result, None)
                },
            }
        } else {
            let mut result = result;
            result.add_error(crate::error::unrecognized_positional(t.as_str()));
            proof {
                let st2 = ScanState {
                    result: st.result.with_error(spec_unrecognized_positional(toks[i as int])),
                    ..st
                };
                assert(ScanState {
                    positionals: pos_views(positionals@),
                    options: opt_views(options@),
                    result: result@,
                } =~~= st2);
            }
            self.scan_exec(node, args, i + 1, positionals, options, result)
        }
    }
}

/// Decodes and stores the defaults of one unmatched argument.
fn apply_defaults_exec(
    destination: &str,
    data_type: DataType,
    ds: &Vec<String>,
    result: crate::result::ParseResult,
) -> (r: crate::result::ParseResult)
    ensures
        r@ == apply_defaults(destination@, data_type, ds.deep_view(), result@),
{
    let ghost all = ds.deep_view();
    let ghost init = result@;
    let mut result = result;
    proof {
        assert(all.skip(0) =~= all);
    }
    let mut k: usize = 0;
    while k < ds.len()
        invariant
            k <= ds.len(),
            all == ds.deep_view(),
            apply_defaults(destination@, data_type, all, init) == apply_defaults(
                destination@,
                data_type,
                all.skip(k as int),
                result@,
            ),
        decreases ds.len() - k,
    {
        proof {
            assert(all.skip(k as int)[0] == all[k as int]);
            assert(all.skip(k as int).skip(1) =~= all.skip(k as int + 1));
        }
        match crate::parsed::ParsedArgument::from_value(ds[k].as_str(), data_type) {
            Err(_) => {
                result.add_error(crate::error::invalid_default(ds[k].as_str()));
            },
            Ok(v) => {
                if data_type.is_array() {
                    result.add_array_value(destination, v);
                } else {
                    result.add_single_value(destination, v);
                }
            },
        }
        k = k + 1;
    }
    proof {
        assert(all.skip(ds@.len() as int) =~= Seq::<Seq<char>>::empty());
    }
    result
}

/// Settles one leftover positional.
fn settle_positional_exec(
    q: &PositionalArgument,
    result: crate::result::ParseResult,
) -> (r: crate::result::ParseResult)
    ensures
        r@ == settle_positional(q@, result@),
{
    if result.has(q.destination.as_str()) {
        return result;
    }
    let mut result = result;
    match crate::argument::effective(&q.is_required, &q.defaults) {
        crate::unparsed::Optionality::Required => {
            result.add_error(crate::error::missing_positional(q.destination.as_str()));
        },
        crate::unparsed::Optionality::Optional => {},
        crate::unparsed::Optionality::Default(ds) => {
            result = apply_defaults_exec(q.destination.as_str(), q.data_type, &ds, result);
        },
    }
    result
}

/// Settles one leftover option.
fn settle_option_exec(
    o: &OptionArgument,
    result: crate::result::ParseResult,
) -> (r: crate::result::ParseResult)
    ensures
        r@ == settle_option(o@, result@),
{
    if result.has(o.destination.as_str()) {
        return result;
    }
    let mut result = result;
    match crate::argument::effective(&o.is_required, &o.default_values) {
        crate::unparsed::Optionality::Required => {
            result.add_error(crate::error::missing_option(o.destination.as_str()));
        },
        crate::unparsed::Optionality::Optional => {},
        crate::unparsed::Optionality::Default(ds) => {
            result = apply_defaults_exec(o.destination.as_str(), o.data_type, &ds, result);
        },
    }
    result
}

/// Settles every leftover positional, in order.
fn finish_positionals_exec(
    positionals: &Vec<PositionalArgument>,
    result: crate::result::ParseResult,
) -> (r: crate::result::ParseResult)
    ensures
        r@ == finish_positionals(pos_views(positionals@), result@),
{
    let ghost all = pos_views(positionals@);
    let ghost init = result@;
    let mut result = result;
    proof {
        assert(all.skip(0) =~= all);
    }
    let mut k: usize = 0;
    while k < positionals.len()
        invariant
            k <= positionals.len(),
            all == pos_views(positionals@),
            finish_positionals(all, init) == finish_positionals(all.skip(k as int), result@),
        decreases positionals.len() - k,
    {
        proof {
            assert(all.skip(k as int)[0] == all[k as int]);
            assert(all.skip(k as int).skip(1) =~= all.skip(k as int + 1));
        }
        result = settle_positional_exec(&positionals[k], result);
        k = k + 1;
    }
    proof {
        assert(all.skip(positionals@.len() as int) =~= Seq::<PositionalArgumentView>::empty());
    }
    result
}

/// Settles every leftover option, in order.
fn finish_options_exec(
    options: &Vec<OptionArgument>,
    result: crate::result::ParseResult,
) -> (r: crate::result::ParseResult)
    ensures
        r@ == finish_options(opt_views(options@), result@),
{
    let ghost all = opt_views(options@);
    let ghost init = result@;
    let mut result = result;
    proof {
        assert(all.skip(0) =~= all);
    }
    let mut k: usize = 0;
    while k < options.len()
        invariant
            k <= options.len(),
            all == opt_views(options@),
            finish_options(all, init) == finish_options(all.skip(k as int), result@),
        decreases options.len() - k,
    {
        proof {
            assert(all.skip(k as int)[0] == all[k as int]);
            assert(all.skip(k as int).skip(1) =~= all.skip(k as int + 1));
        }
        result = settle_option_exec(&options[k], result);
        k = k + 1;
    }
    proof {
        assert(all.skip(options@.len() as int) =~= Seq::<OptionArgumentView>::empty());
    }
    result
}

impl crate::parser::Parser {
    /// Resolves a token list against the node `node`.
    fn parse_node(&self, node: usize, args: Vec<String>) -> (r: crate::result::ParseResult)
        requires
            self@.wf(),
            self@.valid(node as int),
        ensures
            r@ == spec_resolve(self@, node as int, args.deep_view()),
        decreases args@.len(),
    {
        let ghost toks = args.deep_view();
        let positionals = clone_positionals(&self.nodes[node].positionals);
        let options = clone_options(&self.nodes[node].options);
        proof {
            assert(pos_views(positionals@) == self@.nodes[node as int].positionals);
            assert(opt_views(options@) == self@.nodes[node as int].options);
        }
        let (pos_left, opts_left, result, sel) = self.scan_exec(
            node,
            &args,
            0,
            positionals,
            options,
            crate::result::ParseResult::new(),
        );
        let ghost out = spec_scan(
            self@.nodes[node as int].children,
            ScanState {
                positionals: self@.nodes[node as int].positionals,
                options: self@.nodes[node as int].options,
                result: ParseResultView::empty(),
            },
            toks,
            0,
        );
        let selected = sel.is_some();
        let mut result = result;
        match sel {
            Some((name, child, rest)) => {
                let ghost name_view = name@;
                let mut args = args;
                let child_args = args.split_off(rest);
                proof {
                    assert forall|j: int|
                        0 <= j < child_args@.len() implies child_args.deep_view()[j] == toks.skip(
                        rest as int,
                    )[j] by {
                        assert(child_args@[j]@ == toks[rest + j]);
                    }
                    assert(child_args.deep_view() =~= toks.skip(rest as int));
                }
                let sub = self.parse_node(child, child_args);
                let ghost pre = result@;
                result.child = Some(
                    Box::new(crate::result::ChildResult { name, result: sub }),
                );
                proof {
                    assert(result@ =~~= (ParseResultView {
                        child: Some((name_view, Box::new(spec_resolve(
                            self@,
                            child as int,
                            toks.skip(rest as int),
                        )))),
                        ..pre
                    }));
                }
            },
            None => {},
        }
        let result = finish_positionals_exec(&pos_left, result);
        let mut result = finish_options_exec(&opts_left, result);
        if self.nodes[node].children.len() > 0 && !selected {
            result.add_error(crate::error::no_sub_command_chosen());
        }
        result
    }

    /// Parses a token list based on the parser's arguments and
    /// sub-commands, accumulating every discoverable error in the
    /// result's error list rather than failing on the first one.
    pub fn parse(&self, args: Vec<String>) -> (r: crate::result::ParseResult)
        requires
            self@.wf(),
        ensures
            r@ == spec_resolve(self@, 0, args.deep_view()),
    {
        self.parse_node(crate::parser::ROOT, args)
    }
}

} // verus!
