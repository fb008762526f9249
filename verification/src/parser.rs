//! The grammar tree: nodes of positional and option descriptors with named
//! sub-command children, and the registration operations that keep the tree
//! well-formed.

use vstd::prelude::*;

use crate::argument::DataType;
use crate::argument::OptionArgument;
use crate::argument::OptionArgumentView;
use crate::argument::PositionalArgument;
use crate::argument::PositionalArgumentView;
use crate::error::GrammarError;
use crate::parsed::str_eq;

verus! {

/// One sub-command registration: a name and the node it selects.
#[derive(Debug)]
pub struct SubEntry {
    pub name: String,
    pub node: usize,
}

/// The mathematical shape of a [`SubEntry`].
pub ghost struct SubEntryView {
    pub name: Seq<char>,
    pub node: int,
}

impl View for SubEntry {
    type V = SubEntryView;

    open spec fn view(&self) -> SubEntryView {
        SubEntryView { name: self.name@, node: self.node as int }
    }
}

/// One node of the grammar tree: an ordered list of positionals, a list of
/// options, a back-reference to the parent, and the named children.
#[derive(Debug)]
pub struct ParserNode {
    pub positionals: Vec<PositionalArgument>,
    pub options: Vec<OptionArgument>,
    pub parent: Option<usize>,
    pub children: Vec<SubEntry>,
}

/// The mathematical shape of a [`ParserNode`].
#[verifier::ext_equal]
pub ghost struct ParserNodeView {
    pub positionals: Seq<PositionalArgumentView>,
    pub options: Seq<OptionArgumentView>,
    pub parent: Option<int>,
    pub children: Seq<SubEntryView>,
}

impl View for ParserNode {
    type V = ParserNodeView;

    open spec fn view(&self) -> ParserNodeView {
        ParserNodeView {
            positionals: self.positionals@.map_values(|q: PositionalArgument| q@),
            options: self.options@.map_values(|o: OptionArgument| o@),
            parent: match self.parent {
                Some(p) => Some(p as int),
                None => None,
            },
            children: self.children@.map_values(|c: SubEntry| c@),
        }
    }
}

impl ParserNodeView {
    /// A node without arguments or children.
    pub open spec fn empty(parent: Option<int>) -> ParserNodeView {
        ParserNodeView { positionals: Seq::empty(), options: Seq::empty(), parent, children: Seq::empty() }
    }

    /// Some argument of this node stores into `destination`.
    pub open spec fn has_dest(self, destination: Seq<char>) -> bool {
        ||| exists|i: int|
            0 <= i < self.positionals.len() && (#[trigger] self.positionals[i]).destination
                == destination
        ||| exists|i: int|
            0 <= i < self.options.len() && (#[trigger] self.options[i]).destination == destination
    }

    /// Some option of this node carries the short name `short`.
    pub open spec fn has_short(self, short: Seq<char>) -> bool {
        exists|i: int|
            0 <= i < self.options.len() && (#[trigger] self.options[i]).short_name == Some(short)
    }

    /// Some option of this node carries the long name `long`.
    pub open spec fn has_long(self, long: Seq<char>) -> bool {
        exists|i: int|
            0 <= i < self.options.len() && (#[trigger] self.options[i]).long_name == Some(long)
    }

    /// Some child of this node is registered under `name`.
    pub open spec fn has_child_name(self, name: Seq<char>) -> bool {
        exists|i: int| 0 <= i < self.children.len() && (#[trigger] self.children[i]).name == name
    }

    /// No two arguments of this node share a destination.
    pub open spec fn dests_distinct(self) -> bool {
        &&& forall|i: int, j: int|
            0 <= i < j < self.positionals.len() ==> (#[trigger] self.positionals[i]).destination
                != (#[trigger] self.positionals[j]).destination
        &&& forall|i: int, j: int|
            0 <= i < j < self.options.len() ==> (#[trigger] self.options[i]).destination
                != (#[trigger] self.options[j]).destination
        &&& forall|i: int, j: int|
            0 <= i < self.positionals.len() && 0 <= j < self.options.len() ==> (
            #[trigger] self.positionals[i]).destination != (#[trigger] self.options[j]).destination
    }

    /// No two options of this node share a short or a long name.
    pub open spec fn option_names_distinct(self) -> bool {
        forall|i: int, j: int|
            0 <= i < j < self.options.len() ==> ((#[trigger] self.options[i]).short_name is Some
                ==> self.options[i].short_name != (#[trigger] self.options[j]).short_name) && (
            self.options[i].long_name is Some ==> self.options[i].long_name
                != self.options[j].long_name)
    }

    /// Children carry non-empty, pairwise distinct names.
    pub open spec fn children_names_ok(self) -> bool {
        &&& forall|i: int| 0 <= i < self.children.len() ==> (#[trigger] self.children[i]).name.len() > 0
        &&& forall|i: int, j: int|
            0 <= i < j < self.children.len() ==> (#[trigger] self.children[i]).name
                != (#[trigger] self.children[j]).name
    }

    /// A well-formed node: well-formed descriptors, only the last
    /// positional optional, an array, or default-bearing, no such
    /// positional beside sub-commands, and locally unique destinations and
    /// names.
    pub open spec fn wf(self) -> bool {
        &&& forall|i: int| 0 <= i < self.positionals.len() ==> (#[trigger] self.positionals[i]).wf()
        &&& forall|i: int| 0 <= i < self.options.len() ==> (#[trigger] self.options[i]).wf()
        &&& forall|i: int|
            0 <= i < self.positionals.len() - 1 ==> !(#[trigger] self.positionals[i]).is_special()
        &&& self.children.len() > 0 && self.positionals.len() > 0
            ==> !self.positionals.last().is_special()
        &&& self.dests_distinct()
        &&& self.option_names_distinct()
        &&& self.children_names_ok()
    }
}

/// The mathematical shape of a [`Parser`]: the arena of its nodes, the
/// root at index zero.
#[verifier::ext_equal]
pub ghost struct ParserView {
    pub nodes: Seq<ParserNodeView>,
}

impl ParserView {
    /// `node` names a node of this grammar.
    pub open spec fn valid(self, node: int) -> bool {
        0 <= node < self.nodes.len()
    }

    /// Every child link of `node` points forward to a node whose parent
    /// link points back.
    pub open spec fn children_linked(self, node: int) -> bool {
        forall|k: int|
            0 <= k < self.nodes[node].children.len() ==> {
                let c = (#[trigger] self.nodes[node].children[k]).node;
                node < c < self.nodes.len() && self.nodes[c].parent == Some(node)
            }
    }

    /// A well-formed grammar tree: a root without parent, well-formed
    /// nodes, and consistent parent/child links that always point from
    /// lower to higher indices.
    pub open spec fn wf(self) -> bool {
        &&& self.nodes.len() >= 1
        &&& self.nodes[0].parent is None
        &&& forall|i: int| 0 <= i < self.nodes.len() ==> (#[trigger] self.nodes[i]).wf()
        &&& forall|i: int| 0 <= i < self.nodes.len() ==> self.children_linked(i)
        &&& forall|i: int|
            1 <= i < self.nodes.len() ==> ((#[trigger] self.nodes[i].parent) matches Some(p) && 0
                <= p < i)
    }

    /// Some strict ancestor of `node` stores into `destination`.
    pub open spec fn chain_has_dest(self, node: int, destination: Seq<char>) -> bool
        decreases node,
    {
        if !self.valid(node) {
            false
        } else {
            match self.nodes[node].parent {
                Some(p) => if 0 <= p < node {
                    self.nodes[p].has_dest(destination) || self.chain_has_dest(p, destination)
                } else {
                    false
                },
                None => false,
            }
        }
    }

    /// Some node of the subtree rooted at `node` stores into
    /// `destination`.
    pub open spec fn subtree_has_dest(self, node: int, destination: Seq<char>) -> bool
        decreases self.nodes.len() - node, self.nodes[node].children.len() + 1,
    {
        if !self.valid(node) {
            false
        } else {
            self.nodes[node].has_dest(destination) || self.children_have_dest(node, 0, destination)
        }
    }

    /// Some subtree rooted at a child of `node`, at position `k` of its
    /// child list or later, stores into `destination`.
    pub open spec fn children_have_dest(self, node: int, k: int, destination: Seq<char>) -> bool
        decreases self.nodes.len() - node, self.nodes[node].children.len() - k,
    {
        if !self.valid(node) || !(0 <= k < self.nodes[node].children.len()) {
            false
        } else {
            let c = self.nodes[node].children[k].node;
            (if node < c < self.nodes.len() {
                self.subtree_has_dest(c, destination)
            } else {
                false
            }) || self.children_have_dest(node, k + 1, destination)
        }
    }

    /// `destination` is taken somewhere this node must care about: the
    /// node itself, an ancestor, or a descendant.
    pub open spec fn occupied(self, node: int, destination: Seq<char>) -> bool {
        ||| self.nodes[node].has_dest(destination)
        ||| self.chain_has_dest(node, destination)
        ||| self.subtree_has_dest(node, destination)
    }
}

/// A collection of arguments and sub-commands, configured to be parsed a
/// certain way.
///
/// The tree is held as an arena: every operation takes the handle of the
/// node it works on, and [`Parser::new`] makes the root, handle `0`.
#[derive(Debug)]
pub struct Parser {
    pub nodes: Vec<ParserNode>,
}

impl View for Parser {
    type V = ParserView;

    open spec fn view(&self) -> ParserView {
        ParserView { nodes: self.nodes@.map_values(|n: ParserNode| n@) }
    }
}

/// The handle of the root node.
pub const ROOT: usize = 0;

impl ParserNode {
    /// Checks whether an argument of this node stores into `destination`.
    fn has_dest(&self, destination: &str) -> (r: bool)
        ensures
            r == self@.has_dest(destination@),
    {
        let mut i: usize = 0;
        while i < self.positionals.len()
            invariant
                i <= self.positionals.len(),
                forall|j: int|
                    0 <= j < i ==> (#[trigger] self@.positionals[j]).destination != destination@,
            decreases self.positionals.len() - i,
        {
            if str_eq(self.positionals[i].destination.as_str(), destination) {
                assert(self@.positionals[i as int].destination == destination@);
                return true;
            }
            i = i + 1;
        }
        let mut i: usize = 0;
        while i < self.options.len()
            invariant
                i <= self.options.len(),
                forall|j: int|
                    0 <= j < i ==> (#[trigger] self@.options[j]).destination != destination@,
                forall|j: int|
                    0 <= j < self@.positionals.len() ==> (
                    #[trigger] self@.positionals[j]).destination != destination@,
            decreases self.options.len() - i,
        {
            if str_eq(self.options[i].destination.as_str(), destination) {
                assert(self@.options[i as int].destination == destination@);
                return true;
            }
            i = i + 1;
        }
        false
    }

    /// Checks whether an option of this node uses the short name `short`.
    fn has_short(&self, short: &str) -> (r: bool)
        ensures
            r == self@.has_short(short@),
    {
        let mut i: usize = 0;
        while i < self.options.len()
            invariant
                i <= self.options.len(),
                forall|j: int|
                    0 <= j < i ==> (#[trigger] self@.options[j]).short_name != Some(short@),
            decreases self.options.len() - i,
        {
            match &self.options[i].short_name {
                Some(s) => if str_eq(s.as_str(), short) {
                    assert(self@.options[i as int].short_name == Some(short@));
                    return true;
                },
                None => {},
            }
            i = i + 1;
        }
        false
    }

    /// Checks whether an option of this node uses the long name `long`.
    fn has_long(&self, long: &str) -> (r: bool)
        ensures
            r == self@.has_long(long@),
    {
        let mut i: usize = 0;
        while i < self.options.len()
            invariant
                i <= self.options.len(),
                forall|j: int|
                    0 <= j < i ==> (#[trigger] self@.options[j]).long_name != Some(long@),
            decreases self.options.len() - i,
        {
            match &self.options[i].long_name {
                Some(l) => if str_eq(l.as_str(), long) {
                    assert(self@.options[i as int].long_name == Some(long@));
                    return true;
                },
                None => {},
            }
            i = i + 1;
        }
        false
    }

    /// Checks whether a child of this node is registered under `name`.
    fn has_child_name(&self, name: &str) -> (r: bool)
        ensures
            r == self@.has_child_name(name@),
    {
        let mut i: usize = 0;
        while i < self.children.len()
            invariant
                i <= self.children.len(),
                forall|j: int| 0 <= j < i ==> (#[trigger] self@.children[j]).name != name@,
            decreases self.children.len() - i,
        {
            if str_eq(self.children[i].name.as_str(), name) {
                assert(self@.children[i as int].name == name@);
                return true;
            }
            i = i + 1;
        }
        false
    }
}

impl Parser {
    /// Creates a parser with no arguments or sub-commands: a grammar of
    /// one empty root node.
    pub fn new() -> (r: Self)
        ensures
            r@ == (ParserView { nodes: seq![ParserNodeView::empty(None)] }),
            r@.wf(),
    {
        let root = ParserNode {
            positionals: Vec::new(),
            options: Vec::new(),
            parent: None,
            children: Vec::new(),
        };
        let mut nodes: Vec<ParserNode> = Vec::new();
        nodes.push(root);
        let r = Parser { nodes };
        proof {
            assert(r@.nodes =~~= seq![ParserNodeView::empty(None)]);
            assert(r@ =~~= (ParserView { nodes: seq![ParserNodeView::empty(None)] }));
        }
        r
    }

    /// Checks whether a destination is occupied by an argument that
    /// belongs to the node, one of its ancestors, or one of its
    /// descendants.
    pub fn is_destination_occupied(&self, node: usize, destination: &str) -> (r: bool)
        requires
            self@.wf(),
            self@.valid(node as int),
        ensures
            r == self@.occupied(node as int, destination@),
    {
        if self.nodes[node].has_dest(destination) {
            return true;
        }
        if self.chain_occupied(node, destination) {
            return true;
        }
        self.subtree_occupied(node, destination)
    }

    /// Walks the parent chain of `node`, looking for `destination`.
    fn chain_occupied(&self, node: usize, destination: &str) -> (r: bool)
        requires
            self@.wf(),
            self@.valid(node as int),
        ensures
            r == self@.chain_has_dest(node as int, destination@),
    {
        let mut cur = node;
        loop
            invariant
                self@.wf(),
                self@.valid(cur as int),
                self@.chain_has_dest(node as int, destination@) == self@.chain_has_dest(
                    cur as int,
                    destination@,
                ),
            decreases cur,
        {
            match self.nodes[cur].parent {
                None => {
                    return false;
                },
                Some(p) => {
                    assert(cur >= 1 && 0 <= p < cur) by {
                        if cur == 0 {
                            assert(self@.nodes[0].parent is None);
                        }
                    }
                    if self.nodes[p].has_dest(destination) {
                        return true;
                    }
                    cur = p;
                },
            }
        }
    }

    /// Searches the subtree rooted at `node` for `destination`.
    fn subtree_occupied(&self, node: usize, destination: &str) -> (r: bool)
        requires
            self@.wf(),
            self@.valid(node as int),
        ensures
            r == self@.subtree_has_dest(node as int, destination@),
        decreases self.nodes@.len() - node,
    {
        if self.nodes[node].has_dest(destination) {
            return true;
        }
        let mut k: usize = 0;
        while k < self.nodes[node].children.len()
            invariant
                self@.wf(),
                self@.valid(node as int),
                k <= self@.nodes[node as int].children.len(),
                !self@.nodes[node as int].has_dest(destination@),
                self@.children_have_dest(node as int, 0, destination@)
                    == self@.children_have_dest(node as int, k as int, destination@),
            decreases self.nodes@.len() - node, self.nodes@[node as int].children@.len() - k,
        {
            let c = self.nodes[node].children[k].node;
            assert(node < c < self@.nodes.len()) by {
                assert(self@.children_linked(node as int));
                assert(self@.nodes[node as int].children[k as int].node == c);
            }
            if self.subtree_occupied(c, destination) {
                assert(self@.children_have_dest(node as int, k as int, destination@));
                return true;
            }
            k = k + 1;
        }
        false
    }

    /// Checks whether a short name is occupied by an option of the node.
    pub fn is_short_name_occupied(&self, node: usize, short_name: &str) -> (r: bool)
        requires
            self@.valid(node as int),
        ensures
            r == self@.nodes[node as int].has_short(short_name@),
    {
        self.nodes[node].has_short(short_name)
    }

    /// Checks whether a long name is occupied by an option of the node.
    pub fn is_long_name_occupied(&self, node: usize, long_name: &str) -> (r: bool)
        requires
            self@.valid(node as int),
        ensures
            r == self@.nodes[node as int].has_long(long_name@),
    {
        self.nodes[node].has_long(long_name)
    }
}

// ---------------------------------------------------------------------------
// Registration.
// ---------------------------------------------------------------------------

/// The grammar with `option` appended to the options of `node`.
pub open spec fn with_option(p: ParserView, node: int, option: OptionArgumentView) -> ParserView {
    ParserView {
        nodes: p.nodes.update(
            node,
            ParserNodeView { options: p.nodes[node].options.push(option), ..p.nodes[node] },
        ),
    }
}

/// The grammar with `positional` appended to the positionals of `node`.
pub open spec fn with_positional(
    p: ParserView,
    node: int,
    positional: PositionalArgumentView,
) -> ParserView {
    ParserView {
        nodes: p.nodes.update(
            node,
            ParserNodeView {
                positionals: p.nodes[node].positionals.push(positional),
                ..p.nodes[node]
            },
        ),
    }
}

/// The grammar with a new empty child of `node` registered under `name`;
/// the child's handle is the old node count.
pub open spec fn with_child(p: ParserView, node: int, name: Seq<char>) -> ParserView {
    ParserView {
        nodes: p.nodes.update(
            node,
            ParserNodeView {
                children: p.nodes[node].children.push(
                    SubEntryView { name, node: p.nodes.len() as int },
                ),
                ..p.nodes[node]
            },
        ).push(ParserNodeView::empty(Some(node))),
    }
}

/// What [`Parser::add_option`] does: the checks it makes, in order, and
/// the grammar it leaves behind.
pub open spec fn spec_add_option(p: ParserView, node: int, option: OptionArgumentView) -> Result<
    ParserView,
    GrammarError,
> {
    if !p.valid(node) {
        Err(GrammarError::UnknownNode)
    } else if p.occupied(node, option.destination) {
        Err(GrammarError::DuplicateDestination)
    } else if option.short_name matches Some(s) && p.nodes[node].has_short(s) {
        Err(GrammarError::OccupiedShortName)
    } else if option.long_name matches Some(l) && p.nodes[node].has_long(l) {
        Err(GrammarError::OccupiedLongName)
    } else {
        Ok(with_option(p, node, option))
    }
}

/// What [`Parser::add_positional`] does.
pub open spec fn spec_add_positional(
    p: ParserView,
    node: int,
    positional: PositionalArgumentView,
) -> Result<ParserView, GrammarError> {
    if !p.valid(node) {
        Err(GrammarError::UnknownNode)
    } else if p.occupied(node, positional.destination) {
        Err(GrammarError::DuplicateDestination)
    } else if positional.is_special() && p.nodes[node].children.len() > 0 {
        Err(GrammarError::SubCommandConflict)
    } else if p.nodes[node].positionals.len() > 0 && p.nodes[node].positionals.last().is_special() {
        Err(GrammarError::MisplacedPositional)
    } else {
        Ok(with_positional(p, node, positional))
    }
}

/// What [`Parser::sub_parser`] does.
pub open spec fn spec_sub_parser(p: ParserView, node: int, name: Seq<char>) -> Result<
    ParserView,
    GrammarError,
> {
    if !p.valid(node) {
        Err(GrammarError::UnknownNode)
    } else if name.len() == 0 {
        Err(GrammarError::EmptySubCommandName)
    } else if p.nodes[node].has_child_name(name) {
        Err(GrammarError::OccupiedSubCommandName)
    } else if p.nodes[node].positionals.len() > 0 && p.nodes[node].positionals.last().is_special() {
        Err(GrammarError::SubCommandConflict)
    } else {
        Ok(with_child(p, node, name))
    }
}

/// Appending a fitting option to a well-formed grammar keeps it
/// well-formed.
proof fn lemma_add_option_wf(p: ParserView, node: int, option: OptionArgumentView)
    requires
        p.wf(),
        option.wf(),
        spec_add_option(p, node, option) is Ok,
    ensures
        spec_add_option(p, node, option)->Ok_0.wf(),
{
    let q = with_option(p, node, option);
    let old_node = p.nodes[node];
    let new_node = q.nodes[node];
    assert(!old_node.has_dest(option.destination));
    assert(new_node.options =~= old_node.options.push(option));
    assert forall|i: int| 0 <= i < q.nodes.len() implies (#[trigger] q.nodes[i]).wf() by {
        if i != node {
            assert(q.nodes[i] == p.nodes[i]);
        } else {
            assert(q.nodes[i].dests_distinct());
            assert(q.nodes[i].option_names_distinct());
        }
    }
    assert forall|i: int| 0 <= i < q.nodes.len() implies q.children_linked(i) by {
        assert(p.children_linked(i));
        assert(q.nodes[i].children == p.nodes[i].children);
    }
}

/// Appending a fitting positional to a well-formed grammar keeps it
/// well-formed.
proof fn lemma_add_positional_wf(p: ParserView, node: int, positional: PositionalArgumentView)
    requires
        p.wf(),
        positional.wf(),
        spec_add_positional(p, node, positional) is Ok,
    ensures
        spec_add_positional(p, node, positional)->Ok_0.wf(),
{
    let q = with_positional(p, node, positional);
    let old_node = p.nodes[node];
    assert(!old_node.has_dest(positional.destination));
    assert(q.nodes[node].positionals =~= old_node.positionals.push(positional));
    assert forall|i: int| 0 <= i < q.nodes.len() implies (#[trigger] q.nodes[i]).wf() by {
        if i != node {
            assert(q.nodes[i] == p.nodes[i]);
        } else {
            let m = q.nodes[i];
            assert forall|a: int| 0 <= a < m.positionals.len() - 1 implies !(
            #[trigger] m.positionals[a]).is_special() by {
                assert(m.positionals[a] == old_node.positionals[a]);
            }
            assert(m.dests_distinct());
        }
    }
    assert forall|i: int| 0 <= i < q.nodes.len() implies q.children_linked(i) by {
        assert(p.children_linked(i));
        assert(q.nodes[i].children == p.nodes[i].children);
    }
}

/// Registering a fitting sub-command keeps a well-formed grammar
/// well-formed.
proof fn lemma_sub_parser_wf(p: ParserView, node: int, name: Seq<char>)
    requires
        p.wf(),
        spec_sub_parser(p, node, name) is Ok,
    ensures
        spec_sub_parser(p, node, name)->Ok_0.wf(),
{
    let q = with_child(p, node, name);
    let fresh = p.nodes.len() as int;
    let old_node = p.nodes[node];
    assert(q.nodes.len() == p.nodes.len() + 1);
    assert(q.nodes[fresh] == ParserNodeView::empty(Some(node)));
    assert(q.nodes[node].children =~= old_node.children.push(
        SubEntryView { name, node: fresh },
    ));
    assert forall|i: int| 0 <= i < q.nodes.len() implies (#[trigger] q.nodes[i]).wf() by {
        if i == fresh {
            assert(q.nodes[i].positionals.len() == 0);
        } else if i != node {
            assert(q.nodes[i] == p.nodes[i]);
        } else {
            let m = q.nodes[i];
            assert(m.positionals == old_node.positionals);
            assert(m.children_names_ok()) by {
                assert(!old_node.has_child_name(name));
                assert forall|a: int, b: int| 0 <= a < b < m.children.len() implies (
                #[trigger] m.children[a]).name != (#[trigger] m.children[b]).name by {
                    if b < m.children.len() - 1 {
                        assert(m.children[a] == old_node.children[a]);
                        assert(m.children[b] == old_node.children[b]);
                    } else {
                        assert(m.children[a] == old_node.children[a]);
                        assert(m.children[b].name == name);
                    }
                }
            }
        }
    }
    assert forall|i: int| 0 <= i < q.nodes.len() implies q.children_linked(i) by {
        if i == fresh {
            assert(q.nodes[i].children.len() == 0);
        } else if i != node {
            assert(q.nodes[i] == p.nodes[i]);
            assert(p.children_linked(i));
            assert forall|k: int| 0 <= k < q.nodes[i].children.len() implies {
                let c = (#[trigger] q.nodes[i].children[k]).node;
                i < c < q.nodes.len() && q.nodes[c].parent == Some(i)
            } by {
                let c = q.nodes[i].children[k].node;
                assert(i < c < p.nodes.len());
                assert(q.nodes[c].parent == p.nodes[c].parent);
            }
        } else {
            assert forall|k: int| 0 <= k < q.nodes[i].children.len() implies {
                let c = (#[trigger] q.nodes[i].children[k]).node;
                i < c < q.nodes.len() && q.nodes[c].parent == Some(i)
            } by {
                if k < q.nodes[i].children.len() - 1 {
                    assert(q.nodes[i].children[k] == old_node.children[k]);
                    assert(p.children_linked(node));
                    let c = old_node.children[k].node;
                    assert(node < c < p.nodes.len());
                    assert(q.nodes[c].parent == p.nodes[c].parent);
                } else {
                    assert(q.nodes[i].children[k].node == fresh);
                }
            }
        }
    }
    assert forall|i: int| 1 <= i < q.nodes.len() implies ((#[trigger] q.nodes[i].parent)
        matches Some(pp) && 0 <= pp < i) by {
        if i < fresh {
            assert(q.nodes[i].parent == p.nodes[i].parent);
        }
    }
}

impl Parser {
    /// Adds a configured positional argument to the node.
    ///
    /// Fails when the destination is occupied anywhere the node must care
    /// about, when such a positional cannot stand beside the node's
    /// sub-commands, or when the node's current last positional must stay
    /// last.
    pub fn add_positional(&mut self, node: usize, positional: PositionalArgument) -> (r: Result<
        (),
        GrammarError,
    >)
        requires
            old(self)@.wf(),
            positional@.wf(),
        ensures
            final(self)@.wf(),
            match spec_add_positional(old(self)@, node as int, positional@) {
                Ok(v) => r is Ok && final(self)@ == v,
                Err(e) => r == Err::<(), GrammarError>(e) && final(self)@ == old(self)@,
            },
    {
        if node >= self.nodes.len() {
            return Err(GrammarError::UnknownNode);
        }
        if self.is_destination_occupied(node, positional.destination.as_str()) {
            return Err(GrammarError::DuplicateDestination);
        }
        let special = positional_is_special(&positional);
        if special && self.nodes[node].children.len() > 0 {
            return Err(GrammarError::SubCommandConflict);
        }
        let count = self.nodes[node].positionals.len();
        if count > 0 && positional_is_special(&self.nodes[node].positionals[count - 1]) {
            assert(self@.nodes[node as int].positionals.last().is_special());
            return Err(GrammarError::MisplacedPositional);
        }
        proof {
            lemma_add_positional_wf(self@, node as int, positional@);
        }
        let ghost pre = self@;
        let n = &mut self.nodes[node];
        n.positionals.push(positional);
        proof {
            assert(self@.nodes =~~= with_positional(pre, node as int, positional@).nodes);
        }
        Ok(())
    }

    /// Adds a configured option argument to the node.
    ///
    /// Fails when the destination is occupied anywhere the node must care
    /// about, or when one of the option's names is already taken in the
    /// node.
    pub fn add_option(&mut self, node: usize, option: OptionArgument) -> (r: Result<
        (),
        GrammarError,
    >)
        requires
            old(self)@.wf(),
            option@.wf(),
        ensures
            final(self)@.wf(),
            match spec_add_option(old(self)@, node as int, option@) {
                Ok(v) => r is Ok && final(self)@ == v,
                Err(e) => r == Err::<(), GrammarError>(e) && final(self)@ == old(self)@,
            },
    {
        if node >= self.nodes.len() {
            return Err(GrammarError::UnknownNode);
        }
        if self.is_destination_occupied(node, option.destination.as_str()) {
            return Err(GrammarError::DuplicateDestination);
        }
        match &option.short_name {
            Some(s) => if self.is_short_name_occupied(node, s.as_str()) {
                return Err(GrammarError::OccupiedShortName);
            },
            None => {},
        }
        match &option.long_name {
            Some(l) => if self.is_long_name_occupied(node, l.as_str()) {
                return Err(GrammarError::OccupiedLongName);
            },
            None => {},
        }
        proof {
            lemma_add_option_wf(self@, node as int, option@);
        }
        let ghost pre = self@;
        let n = &mut self.nodes[node];
        n.options.push(option);
        proof {
            assert(self@.nodes =~~= with_option(pre, node as int, option@).nodes);
        }
        Ok(())
    }

    /// Adds a sub-command that is parsed by inputting its name after all
    /// other arguments, and returns the handle of its fresh node.
    ///
    /// Fails when the name is empty or occupied, or when the node's last
    /// positional is optional, an array, or default-bearing.
    pub fn sub_parser(&mut self, node: usize, name: &str) -> (r: Result<usize, GrammarError>)
        requires
            old(self)@.wf(),
        ensures
            final(self)@.wf(),
            match spec_sub_parser(old(self)@, node as int, name@) {
                Ok(v) => r == Ok::<usize, GrammarError>(old(self).nodes.len()) && final(self)@
                    == v,
                Err(e) => r == Err::<usize, GrammarError>(e) && final(self)@ == old(self)@,
            },
    {
        if node >= self.nodes.len() {
            return Err(GrammarError::UnknownNode);
        }
        if name.unicode_len() == 0 {
            return Err(GrammarError::EmptySubCommandName);
        }
        if self.nodes[node].has_child_name(name) {
            return Err(GrammarError::OccupiedSubCommandName);
        }
        let count = self.nodes[node].positionals.len();
        if count > 0 && positional_is_special(&self.nodes[node].positionals[count - 1]) {
            assert(self@.nodes[node as int].positionals.last().is_special());
            return Err(GrammarError::SubCommandConflict);
        }
        proof {
            lemma_sub_parser_wf(self@, node as int, name@);
        }
        let ghost pre = self@;
        let fresh = self.nodes.len();
        let entry = SubEntry { name: String::from_str(name), node: fresh };
        let n = &mut self.nodes[node];
        n.children.push(entry);
        let child = ParserNode {
            positionals: Vec::new(),
            options: Vec::new(),
            parent: Some(node),
            children: Vec::new(),
        };
        self.nodes.push(child);
        proof {
            assert(self@.nodes =~~= with_child(pre, node as int, name@).nodes);
        }
        Ok(fresh)
    }

    /// Adds a default-configured positional argument.
    pub fn positional(&mut self, node: usize, destination: &str, data_type: DataType) -> (r:
        Result<(), GrammarError>)
        requires
            old(self)@.wf(),
        ensures
            final(self)@.wf(),
            match spec_add_positional(
                old(self)@,
                node as int,
                PositionalArgumentView { destination: destination@, data_type, is_required: None, defaults: None },
            ) {
                Ok(v) => r is Ok && final(self)@ == v,
                Err(e) => r == Err::<(), GrammarError>(e) && final(self)@ == old(self)@,
            },
    {
        let positional = PositionalArgument::new(destination, data_type);
        self.add_positional(node, positional)
    }

    /// Adds a default-configured option argument.
    ///
    /// Fails when `names` is not of the form `-s`, `--long-name`, or
    /// `-s, --long-name`, and for the same reasons as
    /// [`Parser::add_option`].
    pub fn option(&mut self, node: usize, names: &str, destination: &str, data_type: DataType) -> (
        r: Result<(), GrammarError>)
        requires
            old(self)@.wf(),
        ensures
            final(self)@.wf(),
            match crate::argument::spec_option_new(names@, destination@, data_type) {
                Ok(o) => match spec_add_option(old(self)@, node as int, o) {
                    Ok(v) => r is Ok && final(self)@ == v,
                    Err(e) => r == Err::<(), GrammarError>(e) && final(self)@ == old(self)@,
                },
                Err(e) => r == Err::<(), GrammarError>(e) && final(self)@ == old(self)@,
            },
    {
        let option = match OptionArgument::new(names, destination, data_type) {
            Ok(option) => option,
            Err(e) => {
                return Err(e);
            },
        };
        self.add_option(node, option)
    }
}

/// The boolean option registered by [`Parser::add_flag`]: a non-array
/// `Bool` defaulting to the literal of `default`, so that naming it on the
/// command line toggles it.
pub open spec fn spec_flag_option(
    destination: Seq<char>,
    short: Option<Seq<char>>,
    long: Option<Seq<char>>,
    default: bool,
) -> OptionArgumentView {
    OptionArgumentView {
        short_name: short,
        long_name: long,
        destination,
        data_type: DataType::Bool(false),
        is_required: None,
        default_values: Some(seq![if default { "true"@ } else { "false"@ }]),
    }
}

/// What [`Parser::add_flag`] does.
pub open spec fn spec_add_flag(
    p: ParserView,
    node: int,
    destination: Seq<char>,
    short: Option<Seq<char>>,
    long: Option<Seq<char>>,
    default: bool,
) -> Result<ParserView, GrammarError> {
    if short is None && long is None {
        Err(GrammarError::MissingNames)
    } else if short matches Some(s) && !crate::validation::is_valid_short_name(s) {
        Err(GrammarError::MalformedNames)
    } else if long matches Some(l) && !crate::validation::is_valid_long_name(l) {
        Err(GrammarError::MalformedNames)
    } else {
        spec_add_option(p, node, spec_flag_option(destination, short, long, default))
    }
}

impl Parser {
    /// Adds a toggled boolean flag: a non-array `Bool` option whose
    /// default is `default` and whose presence on the command line sets
    /// the opposite.
    ///
    /// Fails when both names are missing, when a name breaks the name
    /// grammar, and for the same reasons as [`Parser::add_option`].
    pub fn add_flag(
        &mut self,
        node: usize,
        dest: &str,
        short: Option<&str>,
        long: Option<&str>,
        default: bool,
    ) -> (r: Result<(), GrammarError>)
        requires
            old(self)@.wf(),
        ensures
            final(self)@.wf(),
            match spec_add_flag(
                old(self)@,
                node as int,
                dest@,
                match short {
                    Some(s) => Some(s@),
                    None => None,
                },
                match long {
                    Some(l) => Some(l@),
                    None => None,
                },
                default,
            ) {
                Ok(v) => r is Ok && final(self)@ == v,
                Err(e) => r == Err::<(), GrammarError>(e) && final(self)@ == old(self)@,
            },
    {
        if short.is_none() && long.is_none() {
            return Err(GrammarError::MissingNames);
        }
        let short_name: Option<String> = match short {
            Some(s) => {
                if !crate::validation::short_name_ok(s) {
                    return Err(GrammarError::MalformedNames);
                }
                Some(String::from_str(s))
            },
            None => None,
        };
        let long_name: Option<String> = match long {
            Some(l) => {
                if !crate::validation::long_name_ok(l) {
                    return Err(GrammarError::MalformedNames);
                }
                Some(String::from_str(l))
            },
            None => None,
        };
        let mut defaults: Vec<String> = Vec::new();
        if default {
            defaults.push(String::from_str("true"));
        } else {
            defaults.push(String::from_str("false"));
        }
        let option = OptionArgument {
            short_name,
            long_name,
            destination: String::from_str(dest),
            data_type: DataType::Bool(false),
            is_required: None,
            default_values: Some(defaults),
        };
        proof {
            let ghost spec_short: Option<Seq<char>> = match short {
                Some(s) => Some(s@),
                None => None,
            };
            let ghost spec_long: Option<Seq<char>> = match long {
                Some(l) => Some(l@),
                None => None,
            };
            assert(option@.default_values->0 =~= seq![if default { "true"@ } else { "false"@ }]);
            assert(option@ == spec_flag_option(dest@, spec_short, spec_long, default));
            assert(crate::argument::all_defaults_decode(
                option@.default_values->0,
                DataType::Bool(false),
            )) by {
                let ds = option@.default_values->0;
                assert(ds[0] == if default { "true"@ } else { "false"@ });
                assert(crate::parsed::decodes(ds[0], DataType::Bool(false)));
            }
            assert(option@.wf());
        }
        self.add_option(node, option)
    }
}

/// Whether the positional must stand last in its node.
fn positional_is_special(positional: &PositionalArgument) -> (r: bool)
    ensures
        r == positional@.is_special(),
{
    positional.is_required == Some(false) || positional.defaults.is_some()
        || positional.data_type.is_array()
}

} // verus!
