//! The tree the `domus!` macro reads, and the plan of the code it expands
//! to: which element gets which variable number, which attributes are set
//! once or kept in sync with an expression, which listeners are installed,
//! and which text nodes follow a binding. Turning a plan into tokens is a
//! matter of spelling each part out.
use vstd::prelude::*;
use crate::codegen::{
    ExprShape, analyze_expr, event_name, event_type_and_setter, event_type_of, increasing,
    is_handler_attr, is_handler_name, name_views, names_in, trim_on, unquote, unquoted, NameCounter,
};
use crate::text::push_str;

verus! {

/// The value of an attribute in the macro input.
pub enum RsxAttr {
    /// A string literal, as written, quotes included.
    Literal(String),
    /// A bare identifier.
    Ident(String),
    /// A `{ .. }` expression: its shape, and its number among the
    /// expressions of the input.
    Dynamic(ExprShape, usize),
}

/// A node of the macro input.
pub enum RsxNode {
    /// An element with its attributes, in the order written, and children.
    Element { tag: String, attrs: Vec<(String, RsxAttr)>, children: Vec<RsxNode> },
    /// A text literal, as written, quotes included.
    Text(String),
    /// A `{ .. }` expression standing as a node: its shape and its number.
    Dynamic(ExprShape, usize),
    /// A component tag.
    Component { name: String },
}

/// The value a static attribute is set to.
pub enum AttrValue {
    /// A text, its quotes removed.
    Text(String),
    /// The value of a variable.
    Ident(String),
}

/// `element.set_attribute(name, value)`, once.
pub struct StaticAttr {
    pub name: String,
    pub value: AttrValue,
}

/// An expression the generated code evaluates in an effect or a listener:
/// its number in the input, and the identifiers it captures, which are
/// cloned before it and renamed to their clones inside it.
pub struct Binding {
    pub expr: usize,
    pub captures: Vec<String>,
}

/// An attribute kept in sync with an expression by an effect.
pub struct BoundAttr {
    pub name: String,
    pub binding: Binding,
}

/// An event listener: its variable number, the event type it takes, the
/// element's setter that installs it, and its body.
pub struct Listener {
    pub id: usize,
    pub event_type: String,
    pub setter: String,
    pub binding: Binding,
}

/// How one child of an element is built.
pub enum ChildPlan {
    /// An empty text node, variable number `id`, appended to the element and
    /// kept in sync with the binding.
    Bound { id: usize, binding: Binding },
    /// A node built by its own plan, then appended.
    Appended(Box<NodePlan>),
}

/// What the code built for one node does.
pub enum NodePlan {
    /// Create the element (variable number `id`), set its static
    /// attributes, start the effects of its bound ones, install its
    /// listeners, then build and append its children, in that order.
    Element {
        id: usize,
        tag: String,
        attrs: Vec<StaticAttr>,
        bound: Vec<BoundAttr>,
        listeners: Vec<Listener>,
        children: Vec<ChildPlan>,
    },
    /// A text node with this text.
    Text(String),
    /// A compile error with this message.
    Fail(String),
}

/// Whether an attribute becomes a listener: an `on_*` name with an expression.
pub open spec fn is_listener(a: (String, RsxAttr)) -> bool {
    is_handler_name(a.0@) && a.1 is Dynamic
}

/// Whether an attribute is set once: no `on_*` name and no expression.
/// (An `on_*` attribute without an expression is dropped.)
pub open spec fn is_static(a: (String, RsxAttr)) -> bool {
    !is_handler_name(a.0@) && !(a.1 is Dynamic)
}

/// Whether an attribute is kept in sync: no `on_*` name, an expression.
pub open spec fn is_bound(a: (String, RsxAttr)) -> bool {
    !is_handler_name(a.0@) && a.1 is Dynamic
}

/// The number of listeners among `attrs`.
pub open spec fn listener_count(attrs: Seq<(String, RsxAttr)>) -> nat
    decreases attrs.len(),
{
    if attrs.len() == 0 {
        0
    } else {
        listener_count(attrs.drop_last()) + if is_listener(attrs.last()) { 1nat } else { 0nat }
    }
}

/// How many variable numbers the code for `n` takes: one for an element,
/// one for each of its listeners and bound children, and those of its other
/// children.
pub open spec fn ids_taken(n: RsxNode) -> nat
    decreases n, 1nat,
{
    match n {
        RsxNode::Element { attrs, children, .. } => 1 + listener_count(attrs@) + ids_taken_all(children@),
        _ => 0,
    }
}

/// How many variable numbers the children `ns` of an element take.
pub open spec fn ids_taken_all(ns: Seq<RsxNode>) -> nat
    decreases ns, 0nat,
{
    if ns.len() == 0 {
        0
    } else {
        ids_taken_all(ns.drop_last()) + match ns.last() {
            RsxNode::Dynamic(..) => 1nat,
            other => ids_taken(other),
        }
    }
}

/// `b` evaluates expression number `k` of shape `shape`, and captures what
/// `analyze_expr` finds in it.
pub open spec fn binding_fits(b: Binding, shape: ExprShape, k: usize) -> bool {
    &&& b.expr == k
    &&& increasing(name_views(b.captures@))
    &&& name_views(b.captures@).to_set() == names_in(shape).to_set()
}

/// `s` sets the static attribute `a`.
pub open spec fn static_fits(s: StaticAttr, a: (String, RsxAttr)) -> bool {
    &&& s.name@ == a.0@
    &&& match a.1 {
        RsxAttr::Literal(t) => s.value matches AttrValue::Text(v) && v@ == unquoted(t@),
        RsxAttr::Ident(i) => s.value matches AttrValue::Ident(j) && j@ == i@,
        RsxAttr::Dynamic(..) => false,
    }
}

/// `out` sets the static attributes among `attrs`, in order.
pub open spec fn statics_fit(out: Seq<StaticAttr>, attrs: Seq<(String, RsxAttr)>) -> bool
    decreases attrs.len(),
{
    if attrs.len() == 0 {
        out.len() == 0
    } else if is_static(attrs.last()) {
        out.len() > 0 && static_fits(out.last(), attrs.last()) && statics_fit(out.drop_last(), attrs.drop_last())
    } else {
        statics_fit(out, attrs.drop_last())
    }
}

/// `b` keeps the bound attribute `a` in sync.
pub open spec fn bound_fits(b: BoundAttr, a: (String, RsxAttr)) -> bool {
    &&& b.name@ == a.0@
    &&& match a.1 {
        RsxAttr::Dynamic(shape, k) => binding_fits(b.binding, shape, k),
        _ => false,
    }
}

/// `out` keeps the bound attributes among `attrs` in sync, in order.
pub open spec fn bounds_fit(out: Seq<BoundAttr>, attrs: Seq<(String, RsxAttr)>) -> bool
    decreases attrs.len(),
{
    if attrs.len() == 0 {
        out.len() == 0
    } else if is_bound(attrs.last()) {
        out.len() > 0 && bound_fits(out.last(), attrs.last()) && bounds_fit(out.drop_last(), attrs.drop_last())
    } else {
        bounds_fit(out, attrs.drop_last())
    }
}

/// `l` is the listener of attribute `a`, variable number `id`: the event is
/// the name without its `on_`.
pub open spec fn listener_fits(l: Listener, a: (String, RsxAttr), id: int) -> bool {
    &&& l.id == id
    &&& l.event_type@ == event_type_of(trim_on(a.0@))
    &&& l.setter@ == "set_on"@ + trim_on(a.0@)
    &&& match a.1 {
        RsxAttr::Dynamic(shape, k) => binding_fits(l.binding, shape, k),
        _ => false,
    }
}

/// `out` installs the listeners among `attrs`, in order, numbered from `first`.
pub open spec fn listeners_fit(out: Seq<Listener>, attrs: Seq<(String, RsxAttr)>, first: nat) -> bool
    decreases attrs.len(),
{
    if attrs.len() == 0 {
        out.len() == 0
    } else if is_listener(attrs.last()) {
        &&& out.len() > 0
        &&& listener_fits(out.last(), attrs.last(), first + out.len() - 1)
        &&& listeners_fit(out.drop_last(), attrs.drop_last(), first)
    } else {
        listeners_fit(out, attrs.drop_last(), first)
    }
}

/// `p` is the plan of node `n` when its numbers start at `first`.
pub open spec fn plan_fits(p: NodePlan, n: RsxNode, first: nat) -> bool
    decreases n, 0nat,
{
    match n {
        RsxNode::Element { tag, attrs, children } => match p {
            NodePlan::Element { id, tag: t, attrs: sa, bound, listeners, children: cs } => {
                &&& id == first
                &&& t@ == tag@
                &&& statics_fit(sa@, attrs@)
                &&& bounds_fit(bound@, attrs@)
                &&& listeners_fit(listeners@, attrs@, first + 1)
                &&& children_fit(cs@, children@, first + 1 + listener_count(attrs@))
            },
            _ => false,
        },
        RsxNode::Text(content) => p matches NodePlan::Text(t) && t@ == unquoted(content@),
        RsxNode::Dynamic(..) => p matches NodePlan::Fail(m) && m@ == "Dynamic node must be inside an element"@,
        RsxNode::Component { name } => p matches NodePlan::Fail(m) && m@ == "component <"@ + name@
            + "> not yet supported"@,
    }
}

/// `cs` builds the children `ns`, one plan each, numbered from `first`.
pub open spec fn children_fit(cs: Seq<ChildPlan>, ns: Seq<RsxNode>, first: nat) -> bool
    decreases ns, 2nat,
{
    &&& cs.len() == ns.len()
    &&& ns.len() > 0 ==> {
        &&& children_fit(cs.drop_last(), ns.drop_last(), first)
        &&& child_fits(cs.last(), ns.last(), first + ids_taken_all(ns.drop_last()))
    }
}

/// `c` builds the child `n`, numbered from `at`: a bound text node for an
/// expression, the node's own plan otherwise.
pub open spec fn child_fits(c: ChildPlan, n: RsxNode, at: nat) -> bool
    decreases n, 1nat,
{
    match n {
        RsxNode::Dynamic(shape, k) => c matches ChildPlan::Bound { id, binding } && id == at
            && binding_fits(binding, shape, k),
        _ => c matches ChildPlan::Appended(p) && plan_fits(*p, n, at),
    }
}


/// The listener count of a prefix is at most that of the whole.
proof fn lemma_listener_count_prefix(s: Seq<(String, RsxAttr)>, j: int)
    requires
        0 <= j <= s.len(),
    ensures
        listener_count(s.take(j)) <= listener_count(s),
    decreases s.len(),
{
    if j < s.len() {
        assert(s.drop_last().take(j) =~= s.take(j));
        lemma_listener_count_prefix(s.drop_last(), j);
    } else {
        assert(s.take(j) =~= s);
    }
}

/// The numbers a prefix of children takes are at most those of all of them.
proof fn lemma_ids_prefix(s: Seq<RsxNode>, j: int)
    requires
        0 <= j <= s.len(),
    ensures
        ids_taken_all(s.take(j)) <= ids_taken_all(s),
    decreases s.len(),
{
    if j < s.len() {
        assert(s.drop_last().take(j) =~= s.take(j));
        lemma_ids_prefix(s.drop_last(), j);
    } else {
        assert(s.take(j) =~= s);
    }
}

/// The binding of expression number `k`.
fn binding_of(shape: &ExprShape, k: usize) -> (b: Binding)
    ensures
        binding_fits(b, *shape, k),
{
    Binding { expr: k, captures: analyze_expr(shape) }
}

/// The static attributes among `attrs`, in order.
fn static_attrs(attrs: &Vec<(String, RsxAttr)>) -> (out: Vec<StaticAttr>)
    ensures
        statics_fit(out@, attrs@),
{
    let mut out: Vec<StaticAttr> = Vec::new();
    let mut i: usize = 0;
    assert(attrs@.take(0) =~= Seq::<(String, RsxAttr)>::empty());
    while i < attrs.len()
        invariant
            i <= attrs@.len(),
            statics_fit(out@, attrs@.take(i as int)),
        decreases attrs@.len() - i,
    {
        let a = &attrs[i];
        let ghost before = out@;
        assert(attrs@.take(i + 1).drop_last() =~= attrs@.take(i as int));
        assert(attrs@.take(i + 1).last() == attrs@[i as int]);
        if !is_handler_attr(&a.0) {
            match &a.1 {
                RsxAttr::Literal(t) => {
                    out.push(StaticAttr { name: a.0.clone(), value: AttrValue::Text(unquote(t)) });
                    assert(out@.drop_last() =~= before);
                },
                RsxAttr::Ident(x) => {
                    out.push(StaticAttr { name: a.0.clone(), value: AttrValue::Ident(x.clone()) });
                    assert(out@.drop_last() =~= before);
                },
                RsxAttr::Dynamic(..) => {},
            }
        }
        i = i + 1;
    }
    assert(attrs@.take(attrs@.len() as int) =~= attrs@);
    out
}

/// The bound attributes among `attrs`, in order.
fn bound_attrs(attrs: &Vec<(String, RsxAttr)>) -> (out: Vec<BoundAttr>)
    ensures
        bounds_fit(out@, attrs@),
{
    let mut out: Vec<BoundAttr> = Vec::new();
    let mut i: usize = 0;
    assert(attrs@.take(0) =~= Seq::<(String, RsxAttr)>::empty());
    while i < attrs.len()
        invariant
            i <= attrs@.len(),
            bounds_fit(out@, attrs@.take(i as int)),
        decreases attrs@.len() - i,
    {
        let a = &attrs[i];
        let ghost before = out@;
        assert(attrs@.take(i + 1).drop_last() =~= attrs@.take(i as int));
        assert(attrs@.take(i + 1).last() == attrs@[i as int]);
        if !is_handler_attr(&a.0) {
            match &a.1 {
                RsxAttr::Dynamic(shape, k) => {
                    out.push(BoundAttr { name: a.0.clone(), binding: binding_of(shape, *k) });
                    assert(out@.drop_last() =~= before);
                },
                _ => {},
            }
        }
        i = i + 1;
    }
    assert(attrs@.take(attrs@.len() as int) =~= attrs@);
    out
}

/// The listeners among `attrs`, in order, numbered by `counter`.
fn listeners_of(attrs: &Vec<(String, RsxAttr)>, counter: &mut NameCounter) -> (out: Vec<Listener>)
    requires
        old(counter).peek() + listener_count(attrs@) <= usize::MAX,
    ensures
        listeners_fit(out@, attrs@, old(counter).peek()),
        final(counter).peek() == old(counter).peek() + listener_count(attrs@),
{
    let ghost first = counter.peek();
    let mut out: Vec<Listener> = Vec::new();
    let mut i: usize = 0;
    assert(attrs@.take(0) =~= Seq::<(String, RsxAttr)>::empty());
    while i < attrs.len()
        invariant
            i <= attrs@.len(),
            first + listener_count(attrs@) <= usize::MAX,
            listeners_fit(out@, attrs@.take(i as int), first),
            out@.len() == listener_count(attrs@.take(i as int)),
            counter.peek() == first + out@.len(),
        decreases attrs@.len() - i,
    {
        let a = &attrs[i];
        let ghost before = out@;
        assert(attrs@.take(i + 1).drop_last() =~= attrs@.take(i as int));
        assert(attrs@.take(i + 1).last() == attrs@[i as int]);
        proof {
            lemma_listener_count_prefix(attrs@, i + 1);
        }
        if is_handler_attr(&a.0) {
            match &a.1 {
                RsxAttr::Dynamic(shape, k) => {
                    let id = counter.next_id();
                    let event = event_name(&a.0);
                    let (event_type, setter) = event_type_and_setter(&event);
                    out.push(Listener { id, event_type, setter, binding: binding_of(shape, *k) });
                    assert(out@.drop_last() =~= before);
                },
                _ => {},
            }
        }
        i = i + 1;
    }
    assert(attrs@.take(attrs@.len() as int) =~= attrs@);
    out
}


/// The plan of `node`, its variable numbers taken from `counter`.
fn plan_node(node: &RsxNode, counter: &mut NameCounter) -> (p: NodePlan)
    requires
        old(counter).peek() + ids_taken(*node) <= usize::MAX,
    ensures
        plan_fits(p, *node, old(counter).peek()),
        final(counter).peek() == old(counter).peek() + ids_taken(*node),
    decreases node, 1nat,
{
    match node {
        RsxNode::Element { tag, attrs, children } => {
            let id = counter.next_id();
            let listeners = listeners_of(attrs, counter);
            let attrs_set = static_attrs(attrs);
            let bound = bound_attrs(attrs);
            let planned = plan_children(children, counter);
            NodePlan::Element { id, tag: tag.clone(), attrs: attrs_set, bound, listeners, children: planned }
        },
        RsxNode::Text(content) => NodePlan::Text(unquote(content)),
        RsxNode::Dynamic(..) => {
            let mut m = String::new();
            push_str(&mut m, "Dynamic node must be inside an element");
            assert(m@ =~= "Dynamic node must be inside an element"@);
            NodePlan::Fail(m)
        },
        RsxNode::Component { name } => {
            let mut m = String::new();
            push_str(&mut m, "component <");
            push_str(&mut m, name.as_str());
            push_str(&mut m, "> not yet supported");
            assert(m@ =~= "component <"@ + name@ + "> not yet supported"@);
            NodePlan::Fail(m)
        },
    }
}

/// The plans of the children of an element, numbered by `counter`.
fn plan_children(children: &Vec<RsxNode>, counter: &mut NameCounter) -> (out: Vec<ChildPlan>)
    requires
        old(counter).peek() + ids_taken_all(children@) <= usize::MAX,
    ensures
        children_fit(out@, children@, old(counter).peek()),
        final(counter).peek() == old(counter).peek() + ids_taken_all(children@),
    decreases children@, 0nat,
{
    let ghost first = counter.peek();
    let mut out: Vec<ChildPlan> = Vec::new();
    let mut i: usize = 0;
    assert(children@.take(0) =~= Seq::<RsxNode>::empty());
    while i < children.len()
        invariant
            i <= children@.len(),
            first + ids_taken_all(children@) <= usize::MAX,
            children_fit(out@, children@.take(i as int), first),
            counter.peek() == first + ids_taken_all(children@.take(i as int)),
        decreases children@.len() - i,
    {
        let ghost before = out@;
        assert(children@.take(i + 1).drop_last() =~= children@.take(i as int));
        assert(children@.take(i + 1).last() == children@[i as int]);
        proof {
            lemma_ids_prefix(children@, i + 1);
        }
        match &children[i] {
            RsxNode::Dynamic(shape, k) => {
                let id = counter.next_id();
                out.push(ChildPlan::Bound { id, binding: binding_of(shape, *k) });
            },
            _ => {
                let p = plan_node(&children[i], counter);
                out.push(ChildPlan::Appended(Box::new(p)));
            },
        }
        assert(out@.drop_last() =~= before);
        assert(child_fits(out@.last(), children@[i as int], first + ids_taken_all(children@.take(i as int))));
        assert(children_fit(out@.drop_last(), children@.take(i + 1).drop_last(), first));
        i = i + 1;
    }
    assert(children@.take(children@.len() as int) =~= children@);
    out
}

/// The plan of the code the macro expands `node` to; variable numbers
/// start at 0 (`generate`).
pub fn plan(node: &RsxNode) -> (p: NodePlan)
    requires
        ids_taken(*node) <= usize::MAX,
    ensures
        plan_fits(p, *node, 0),
{
    let mut counter = NameCounter::new();
    plan_node(node, &mut counter)
}


/// The numbers of `ls`, in order.
pub open spec fn listener_ids(ls: Seq<Listener>) -> Seq<nat> {
    Seq::new(ls.len(), |i: int| ls[i].id as nat)
}

/// The variable numbers a plan declares, in the order the code declares
/// them: the element's, its listeners', then its children's.
pub open spec fn plan_ids(p: NodePlan) -> Seq<nat>
    decreases p, 1nat,
{
    match p {
        NodePlan::Element { id, listeners, children, .. } => seq![id as nat] + listener_ids(listeners@)
            + child_ids(children@),
        _ => Seq::empty(),
    }
}

/// The variable numbers the child plans `cs` declare, in order.
pub open spec fn child_ids(cs: Seq<ChildPlan>) -> Seq<nat>
    decreases cs, 0nat,
{
    if cs.len() == 0 {
        Seq::empty()
    } else {
        child_ids(cs.drop_last()) + match cs.last() {
            ChildPlan::Bound { id, .. } => seq![id as nat],
            ChildPlan::Appended(p) => plan_ids(*p),
        }
    }
}

/// `s` counts up by one from `first`.
pub open spec fn counts_from(s: Seq<nat>, first: nat) -> bool {
    forall|i: int| 0 <= i < s.len() ==> s[i] == first + i
}

proof fn lemma_listener_ids(out: Seq<Listener>, attrs: Seq<(String, RsxAttr)>, first: nat)
    requires
        listeners_fit(out, attrs, first),
    ensures
        out.len() == listener_count(attrs),
        counts_from(listener_ids(out), first),
    decreases attrs.len(),
{
    if attrs.len() > 0 {
        if is_listener(attrs.last()) {
            lemma_listener_ids(out.drop_last(), attrs.drop_last(), first);
            assert forall|i: int| 0 <= i < out.len() implies listener_ids(out)[i] == first + i by {
                if i < out.len() - 1 {
                    assert(listener_ids(out.drop_last())[i] == listener_ids(out)[i]);
                }
            }
        } else {
            lemma_listener_ids(out, attrs.drop_last(), first);
        }
    }
}

proof fn lemma_concat_counts(a: Seq<nat>, b: Seq<nat>, first: nat)
    requires
        counts_from(a, first),
        counts_from(b, first + a.len()),
    ensures
        counts_from(a + b, first),
{
    assert forall|i: int| 0 <= i < (a + b).len() implies (a + b)[i] == first + i by {
        if i >= a.len() {
            assert((a + b)[i] == b[i - a.len()]);
        }
    }
}

proof fn lemma_child_ids(cs: Seq<ChildPlan>, ns: Seq<RsxNode>, first: nat)
    requires
        children_fit(cs, ns, first),
    ensures
        child_ids(cs).len() == ids_taken_all(ns),
        counts_from(child_ids(cs), first),
    decreases ns,
{
    if ns.len() > 0 {
        lemma_child_ids(cs.drop_last(), ns.drop_last(), first);
        let at = first + ids_taken_all(ns.drop_last());
        assert(child_fits(cs.last(), ns.last(), at));
        match ns.last() {
            RsxNode::Dynamic(..) => {},
            other => {
                if let ChildPlan::Appended(p) = cs.last() {
                    lemma_plan_ids(*p, other, at);
                }
            },
        }
        let tail = match cs.last() {
            ChildPlan::Bound { id, .. } => seq![id as nat],
            ChildPlan::Appended(p) => plan_ids(*p),
        };
        lemma_concat_counts(child_ids(cs.drop_last()), tail, first);
    }
}

/// The variable numbers of a plan count up by one from where its numbering
/// starts, one for each number the node takes: no two variables of the
/// generated code share a name.
pub proof fn lemma_plan_ids(p: NodePlan, n: RsxNode, first: nat)
    requires
        plan_fits(p, n, first),
    ensures
        plan_ids(p).len() == ids_taken(n),
        counts_from(plan_ids(p), first),
        plan_ids(p).no_duplicates(),
    decreases n,
{
    match n {
        RsxNode::Element { attrs, children, .. } => {
            if let NodePlan::Element { id, listeners, children: cs, .. } = p {
                lemma_listener_ids(listeners@, attrs@, first + 1);
                lemma_child_ids(cs@, children@, first + 1 + listener_count(attrs@));
                let head = seq![id as nat];
                lemma_concat_counts(head, listener_ids(listeners@), first);
                lemma_concat_counts(head + listener_ids(listeners@), child_ids(cs@), first);
            }
        },
        _ => {},
    }
    assert forall|i: int, j: int| 0 <= i < plan_ids(p).len() && 0 <= j < plan_ids(p).len() && i != j
        implies plan_ids(p)[i] != plan_ids(p)[j] by {}
}

} // verus!
