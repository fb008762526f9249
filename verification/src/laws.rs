//! Laws of the grammar and the resolver, stated and proved once for every
//! grammar rather than checked on examples.

use vstd::prelude::*;

use crate::argument::DataType;
use crate::argument::OptionArgumentView;
use crate::argument::PositionalArgumentView;
use crate::argument::effective_optionality;
use crate::error::GrammarError;
use crate::parsed::spec_from_value;
use crate::parser::ParserView;
use crate::parser::spec_add_positional;
use crate::parser::spec_sub_parser;
use crate::resolver::ScanOutcome;
use crate::resolver::ScanState;
use crate::resolver::apply_defaults;
use crate::resolver::finish_options;
use crate::resolver::finish_positionals;
use crate::resolver::settle_option;
use crate::resolver::settle_positional;
use crate::resolver::spec_resolve;
use crate::resolver::spec_scan;
use crate::result::ParseResultView;
use crate::unparsed::OptionalityView;
use crate::validation::is_valid_names;

verus! {

/// Appending a positional whose destination is already taken by any
/// argument of the node, an ancestor, or a descendant fails construction
/// with `DuplicateDestination`.
pub proof fn law_duplicate_destination_rejected(
    p: ParserView,
    node: int,
    q: PositionalArgumentView,
)
    requires
        p.valid(node),
        p.occupied(node, q.destination),
    ensures
        spec_add_positional(p, node, q) == Err::<ParserView, GrammarError>(
            GrammarError::DuplicateDestination,
        ),
{
}

/// An option name string matching none of the forms `-X`, `--long`, and
/// `-X, --long` fails option construction with `MalformedNames`.
pub proof fn law_malformed_names_rejected(
    names: Seq<char>,
    destination: Seq<char>,
    data_type: DataType,
)
    requires
        !is_valid_names(names),
    ensures
        crate::argument::spec_option_new(names, destination, data_type) == Err::<
            OptionArgumentView,
            GrammarError,
        >(GrammarError::MalformedNames),
{
}

/// In a well-formed grammar only the last positional of a node is
/// optional, an array, or default-bearing.
pub proof fn law_only_last_positional_special(p: ParserView, node: int, i: int)
    requires
        p.wf(),
        p.valid(node),
        0 <= i < p.nodes[node].positionals.len() - 1,
    ensures
        !p.nodes[node].positionals[i].is_special(),
{
    assert(p.nodes[node].wf());
}

/// Appending a further positional behind one that is optional, an array,
/// or default-bearing fails construction with `MisplacedPositional`.
pub proof fn law_non_last_special_rejected(p: ParserView, node: int, q: PositionalArgumentView)
    requires
        p.valid(node),
        !p.occupied(node, q.destination),
        !(q.is_special() && p.nodes[node].children.len() > 0),
        p.nodes[node].positionals.len() > 0,
        p.nodes[node].positionals.last().is_special(),
    ensures
        spec_add_positional(p, node, q) == Err::<ParserView, GrammarError>(
            GrammarError::MisplacedPositional,
        ),
{
}

/// A sub-command cannot be added while the node's last positional is
/// optional, an array, or default-bearing.
pub proof fn law_sub_command_after_special_rejected(p: ParserView, node: int, name: Seq<char>)
    requires
        p.valid(node),
        name.len() > 0,
        !p.nodes[node].has_child_name(name),
        p.nodes[node].positionals.len() > 0,
        p.nodes[node].positionals.last().is_special(),
    ensures
        spec_sub_parser(p, node, name) == Err::<ParserView, GrammarError>(
            GrammarError::SubCommandConflict,
        ),
{
}

/// Conversely, such a positional cannot be appended while the node owns
/// sub-commands.
pub proof fn law_special_positional_beside_sub_command_rejected(
    p: ParserView,
    node: int,
    q: PositionalArgumentView,
)
    requires
        p.valid(node),
        !p.occupied(node, q.destination),
        q.is_special(),
        p.nodes[node].children.len() > 0,
    ensures
        spec_add_positional(p, node, q) == Err::<ParserView, GrammarError>(
            GrammarError::SubCommandConflict,
        ),
{
}

/// Resolving the same token list against the same grammar twice yields
/// structurally identical results.
pub proof fn law_resolve_idempotent(
    p: ParserView,
    toks: Seq<Seq<char>>,
    r1: ParseResultView,
    r2: ParseResultView,
)
    requires
        r1 == spec_resolve(p, 0, toks),
        r2 == spec_resolve(p, 0, toks),
    ensures
        r1 == r2,
{
}

// ---------------------------------------------------------------------------
// The default round trip.
// ---------------------------------------------------------------------------

/// Applying defaults for one destination leaves every other destination
/// untouched.
proof fn lemma_apply_defaults_frame(
    destination: Seq<char>,
    data_type: DataType,
    ds: Seq<Seq<char>>,
    r: ParseResultView,
    d: Seq<char>,
)
    requires
        d != destination,
    ensures
        ({
            let r2 = apply_defaults(destination, data_type, ds, r);
            &&& r2.singles.contains_key(d) == r.singles.contains_key(d)
            &&& r.singles.contains_key(d) ==> r2.singles[d] == r.singles[d]
            &&& r2.arrays.contains_key(d) == r.arrays.contains_key(d)
        }),
    decreases ds.len(),
{
    if ds.len() > 0 {
        let r2 = match spec_from_value(ds[0], data_type) {
            Err(_) => r.with_error(crate::error::spec_invalid_default(ds[0])),
            Ok(v) => if data_type.spec_is_array() {
                r.with_array_pushed(destination, v)
            } else {
                r.with_single(destination, v)
            },
        };
        lemma_apply_defaults_frame(destination, data_type, ds.skip(1), r2, d);
    }
}

/// Settling one positional touches no destination but its own.
proof fn lemma_settle_positional_frame(q: PositionalArgumentView, r: ParseResultView, d: Seq<char>)
    requires
        d != q.destination,
    ensures
        ({
            let r2 = settle_positional(q, r);
            &&& r2.singles.contains_key(d) == r.singles.contains_key(d)
            &&& r.singles.contains_key(d) ==> r2.singles[d] == r.singles[d]
            &&& r2.arrays.contains_key(d) == r.arrays.contains_key(d)
        }),
{
    if !r.contains_dest(q.destination) {
        match effective_optionality(q.is_required, q.defaults) {
            OptionalityView::Default(ds) => {
                lemma_apply_defaults_frame(q.destination, q.data_type, ds, r, d);
            },
            _ => {},
        }
    }
}

/// Settling leftover positionals touches only their own destinations.
proof fn lemma_finish_positionals_frame(
    ps: Seq<PositionalArgumentView>,
    r: ParseResultView,
    d: Seq<char>,
)
    requires
        forall|i: int| 0 <= i < ps.len() ==> (#[trigger] ps[i]).destination != d,
    ensures
        ({
            let r2 = finish_positionals(ps, r);
            &&& r2.singles.contains_key(d) == r.singles.contains_key(d)
            &&& r.singles.contains_key(d) ==> r2.singles[d] == r.singles[d]
            &&& r2.arrays.contains_key(d) == r.arrays.contains_key(d)
        }),
    decreases ps.len(),
{
    if ps.len() > 0 {
        lemma_settle_positional_frame(ps[0], r, d);
        lemma_finish_positionals_frame(ps.skip(1), settle_positional(ps[0], r), d);
    }
}

/// Settling one option touches no destination but its own.
proof fn lemma_settle_option_frame(o: OptionArgumentView, r: ParseResultView, d: Seq<char>)
    requires
        d != o.destination,
    ensures
        ({
            let r2 = settle_option(o, r);
            &&& r2.singles.contains_key(d) == r.singles.contains_key(d)
            &&& r.singles.contains_key(d) ==> r2.singles[d] == r.singles[d]
            &&& r2.arrays.contains_key(d) == r.arrays.contains_key(d)
        }),
{
    if !r.contains_dest(o.destination) {
        match effective_optionality(o.is_required, o.default_values) {
            OptionalityView::Default(ds) => {
                lemma_apply_defaults_frame(o.destination, o.data_type, ds, r, d);
            },
            _ => {},
        }
    }
}

/// Settling the leftover options from index `j` on fills the scalar
/// destination of a scalar option with one decoding default, provided no
/// other processed option shares that destination.
proof fn lemma_finish_options_hits(os: Seq<OptionArgumentView>, r: ParseResultView, j: int)
    requires
        0 <= j < os.len(),
        forall|k: int| 0 <= k < os.len() && k != j ==> (#[trigger] os[k]).destination != os[j].destination,
        !r.contains_dest(os[j].destination),
        !os[j].data_type.spec_is_array(),
        os[j].is_required != Some(true),
        os[j].default_values matches Some(ds) && ds.len() == 1 && crate::parsed::decodes(
            ds[0],
            os[j].data_type,
        ),
    ensures
        ({
            let r2 = finish_options(os, r);
            &&& r2.singles.contains_key(os[j].destination)
            &&& r2.singles[os[j].destination] == spec_from_value(
                os[j].default_values->0[0],
                os[j].data_type,
            )->Ok_0
        }),
    decreases os.len(),
{
    let o = os[j];
    let ds = o.default_values->0;
    if j == 0 {
        let r2 = settle_option(o, r);
        assert(effective_optionality(o.is_required, o.default_values)
            == OptionalityView::Default(ds));
        let v = spec_from_value(ds[0], o.data_type)->Ok_0;
        let r1 = r.with_single(o.destination, v);
        assert(r1.singles == r.singles.insert(o.destination, v));
        assert(r2 == apply_defaults(o.destination, o.data_type, ds.skip(1), r1));
        assert(ds.skip(1) =~= Seq::<Seq<char>>::empty());
        assert(apply_defaults(o.destination, o.data_type, Seq::<Seq<char>>::empty(), r1) == r1);
        assert(r2.singles.contains_key(o.destination));
        assert(r2.singles[o.destination] == spec_from_value(ds[0], o.data_type)->Ok_0);
        assert forall|k: int| 0 <= k < os.skip(1).len() implies (
        #[trigger] os.skip(1)[k]).destination != o.destination by {
            assert(os.skip(1)[k] == os[k + 1]);
        }
        lemma_finish_options_frame_value(os.skip(1), r2, o.destination);
    } else {
        let r2 = settle_option(os[0], r);
        lemma_settle_option_frame(os[0], r, o.destination);
        assert forall|k: int|
            0 <= k < os.skip(1).len() && k != j - 1 implies (#[trigger] os.skip(1)[k]).destination
            != os.skip(1)[j - 1].destination by {
            assert(os.skip(1)[k] == os[k + 1]);
            assert(os.skip(1)[j - 1] == os[j]);
        }
        assert(os.skip(1)[j - 1] == os[j]);
        lemma_finish_options_hits(os.skip(1), r2, j - 1);
    }
}

/// Settling leftover options preserves an already-present scalar entry at
/// a destination none of them owns.
proof fn lemma_finish_options_frame_value(
    os: Seq<OptionArgumentView>,
    r: ParseResultView,
    d: Seq<char>,
)
    requires
        forall|i: int| 0 <= i < os.len() ==> (#[trigger] os[i]).destination != d,
    ensures
        ({
            let r2 = finish_options(os, r);
            &&& r2.singles.contains_key(d) == r.singles.contains_key(d)
            &&& r.singles.contains_key(d) ==> r2.singles[d] == r.singles[d]
        }),
    decreases os.len(),
{
    if os.len() > 0 {
        lemma_settle_option_frame(os[0], r, d);
        lemma_finish_options_frame_value(os.skip(1), settle_option(os[0], r), d);
    }
}

/// Round trip: in a well-formed grammar, a scalar option with one valid
/// default gets exactly the default-decoded value stored under its
/// destination when the empty token list is resolved against its node.
pub proof fn law_default_round_trip(p: ParserView, node: int, j: int)
    requires
        p.wf(),
        p.valid(node),
        0 <= j < p.nodes[node].options.len(),
        !p.nodes[node].options[j].data_type.spec_is_array(),
        p.nodes[node].options[j].default_values matches Some(ds) && ds.len() == 1,
    ensures
        ({
            let o = p.nodes[node].options[j];
            let r = spec_resolve(p, node, Seq::empty());
            &&& r.singles.contains_key(o.destination)
            &&& r.singles[o.destination] == spec_from_value(
                o.default_values->0[0],
                o.data_type,
            )->Ok_0
        }),
{
    let n = p.nodes[node];
    let o = n.options[j];
    assert(n.wf());
    assert(o.wf());
    let ds = o.default_values->0;
    assert(crate::parsed::decodes(ds[0], o.data_type));
    assert(o.is_required != Some(true));
    let empty = Seq::<Seq<char>>::empty();
    let st0 = ScanState {
        positionals: n.positionals,
        options: n.options,
        result: ParseResultView::empty(),
    };
    let out = spec_scan(n.children, st0, empty, 0);
    assert(out.state == st0 && out.outcome is Finished);
    assert forall|i: int| 0 <= i < n.positionals.len() implies (
    #[trigger] n.positionals[i]).destination != o.destination by {
        assert(n.dests_distinct());
    }
    lemma_finish_positionals_frame(n.positionals, ParseResultView::empty(), o.destination);
    let r2 = finish_positionals(n.positionals, ParseResultView::empty());
    assert(!r2.contains_dest(o.destination));
    assert forall|k: int| 0 <= k < n.options.len() && k != j implies (
    #[trigger] n.options[k]).destination != o.destination by {
        assert(n.dests_distinct());
    }
    lemma_finish_options_hits(n.options, r2, j);
}

} // verus!
