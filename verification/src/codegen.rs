//! Code generation helpers of the `domus!` macro: fresh variable names,
//! the DOM event behind an `on_*` attribute, and the identifiers a binding
//! expression captures (which the generated code clones first).
use vstd::prelude::*;
use crate::text::{decimal, push_decimal, push_str, text_less, text_lt, lemma_text_lt_irreflexive, lemma_text_lt_total, lemma_text_lt_trans, chars_of};

verus! {

/// The counter behind the generated variable names (`__el_0`, ...).
pub struct NameCounter {
    next: usize,
}

impl NameCounter {
    /// The number the next name gets.
    pub closed spec fn peek(self) -> nat {
        self.next as nat
    }

    /// A counter starting at 0.
    pub fn new() -> (c: Self)
        ensures
            c.peek() == 0,
    {
        NameCounter { next: 0 }
    }

    /// Take the next number.
    pub fn next_id(&mut self) -> (v: usize)
        requires
            old(self).peek() < usize::MAX,
        ensures
            v == old(self).peek(),
            final(self).peek() == old(self).peek() + 1,
    {
        let v = self.next;
        self.next = v + 1;
        v
    }

    /// Start numbering from 0 again.
    pub fn reset_counter(&mut self)
        ensures
            final(self).peek() == 0,
    {
        self.next = 0;
    }
}

/// The name of the variable holding element number `id`.
pub fn element_var(id: usize) -> (r: String)
    ensures
        r@ == "__el_"@ + decimal(id as nat),
{
    let mut r = String::new();
    push_str(&mut r, "__el_");
    push_decimal(&mut r, id);
    r
}

/// The name of the variable holding event handler number `id`.
pub fn handler_var(id: usize) -> (r: String)
    ensures
        r@ == "__handler_"@ + decimal(id as nat),
{
    let mut r = String::new();
    push_str(&mut r, "__handler_");
    push_decimal(&mut r, id);
    r
}

/// The name of the variable holding the text node of binding number `id`.
pub fn text_var(id: usize) -> (r: String)
    ensures
        r@ == "__dyn_"@ + decimal(id as nat),
{
    let mut r = String::new();
    push_str(&mut r, "__dyn_");
    push_decimal(&mut r, id);
    r
}

/// The name of the clone of variable `var`.
pub fn clone_name(var: &String) -> (r: String)
    ensures
        r@ == var@ + "_clone"@,
{
    let mut r = var.clone();
    push_str(&mut r, "_clone");
    r
}

/// `s` without every leading "on_" (`str::trim_start_matches`).
pub open spec fn trim_on(s: Seq<char>) -> Seq<char>
    decreases s.len(),
{
    if s.len() >= 3 && s[0] == 'o' && s[1] == 'n' && s[2] == '_' {
        trim_on(s.skip(3))
    } else {
        s
    }
}

fn starts_with_on(cs: &Vec<char>, i: usize) -> (r: bool)
    requires
        i <= cs@.len(),
    ensures
        r == {
            let t = cs@.skip(i as int);
            t.len() >= 3 && t[0] == 'o' && t[1] == 'n' && t[2] == '_'
        },
{
    cs.len() - i >= 3 && cs[i] == 'o' && cs[i + 1] == 'n' && cs[i + 2] == '_'
}

/// The event an `on_*` attribute listens to.
pub fn event_name(attr: &String) -> (r: String)
    ensures
        r@ == trim_on(attr@),
{
    let cs = chars_of(attr.as_str());
    let mut i: usize = 0;
    assert(cs@.skip(0) =~= cs@);
    let n = cs.len();
    let mut more = starts_with_on(&cs, i);
    while more
        invariant
            n == cs@.len(),
            i <= cs@.len(),
            trim_on(cs@.skip(i as int)) == trim_on(attr@),
            cs@ == attr@,
            more == {
                let t = cs@.skip(i as int);
                t.len() >= 3 && t[0] == 'o' && t[1] == 'n' && t[2] == '_'
            },
        decreases cs@.len() - i,
    {
        assert(cs@.skip(i as int).len() == cs@.len() - i);
        assert(cs@.skip(i as int).skip(3) =~= cs@.skip(i + 3));
        i = i + 3;
        more = starts_with_on(&cs, i);
    }
    let mut out: Vec<char> = Vec::new();
    let mut k: usize = i;
    while k < cs.len()
        invariant
            i <= k <= cs@.len(),
            out@ == cs@.subrange(i as int, k as int),
        decreases cs@.len() - k,
    {
        out.push(cs[k]);
        assert(cs@.subrange(i as int, k + 1) =~= cs@.subrange(i as int, k as int).push(cs@[k as int]));
        k = k + 1;
    }
    assert(out@ =~= cs@.skip(i as int));
    crate::text::string_of(&out)
}

/// The `web_sys` event type handed to a listener of `event`.
pub open spec fn event_type_of(event: Seq<char>) -> Seq<char> {
    if event == "click"@ || event == "dblclick"@ || event == "mousedown"@ || event == "mouseup"@
        || event == "mouseover"@ || event == "mouseout"@ {
        "web_sys::MouseEvent"@
    } else if event == "input"@ {
        "web_sys::InputEvent"@
    } else if event == "keydown"@ || event == "keyup"@ || event == "keypress"@ {
        "web_sys::KeyboardEvent"@
    } else if event == "submit"@ {
        "web_sys::SubmitEvent"@
    } else if event == "focus"@ || event == "blur"@ {
        "web_sys::FocusEvent"@
    } else {
        "web_sys::Event"@
    }
}

/// The event types of the listeners: mouse buttons and pointer moves take a
/// `MouseEvent`, text entry an `InputEvent`, keys a `KeyboardEvent`, form
/// submission a `SubmitEvent`, focus changes a `FocusEvent`; every other
/// event a plain `Event`.
pub proof fn lemma_event_type_table(event: Seq<char>)
    ensures
        event == "click"@ || event == "dblclick"@ || event == "mousedown"@ || event == "mouseup"@
            || event == "mouseover"@ || event == "mouseout"@ ==> event_type_of(event) == "web_sys::MouseEvent"@,
        event == "input"@ ==> event_type_of(event) == "web_sys::InputEvent"@,
        event == "keydown"@ || event == "keyup"@ || event == "keypress"@ ==> event_type_of(event)
            == "web_sys::KeyboardEvent"@,
        event == "submit"@ ==> event_type_of(event) == "web_sys::SubmitEvent"@,
        event == "focus"@ || event == "blur"@ ==> event_type_of(event) == "web_sys::FocusEvent"@,
        !(event == "click"@ || event == "dblclick"@ || event == "mousedown"@ || event == "mouseup"@
            || event == "mouseover"@ || event == "mouseout"@ || event == "input"@ || event == "keydown"@
            || event == "keyup"@ || event == "keypress"@ || event == "submit"@ || event == "focus"@
            || event == "blur"@) ==> event_type_of(event) == "web_sys::Event"@,
{
    reveal_strlit("click");
    reveal_strlit("dblclick");
    reveal_strlit("mousedown");
    reveal_strlit("mouseup");
    reveal_strlit("mouseover");
    reveal_strlit("mouseout");
    reveal_strlit("input");
    reveal_strlit("keydown");
    reveal_strlit("keyup");
    reveal_strlit("keypress");
    reveal_strlit("submit");
    reveal_strlit("focus");
    reveal_strlit("blur");
    if event == "input"@ {
        assert(event[0] == 'i');
    }
    if event == "keydown"@ || event == "keyup"@ || event == "keypress"@ {
        assert(event[0] == 'k');
    }
    if event == "submit"@ {
        assert(event[0] == 's');
    }
    if event == "focus"@ || event == "blur"@ {
        assert(event[0] == 'f' || event[0] == 'b');
    }
}

fn is(s: &String, word: &str) -> (r: bool)
    ensures
        r == (s@ == word@),
{
    *s == word.to_owned()
}

/// The event type of a listener of `event`, and the element's setter
/// (`set_on` followed by the event) that installs it.
pub fn event_type_and_setter(event: &String) -> (r: (String, String))
    ensures
        r.0@ == event_type_of(event@),
        r.1@ == "set_on"@ + event@,
{
    let mut setter = String::new();
    push_str(&mut setter, "set_on");
    push_str(&mut setter, event.as_str());
    let ty = if is(event, "click") || is(event, "dblclick") || is(event, "mousedown") || is(event, "mouseup")
        || is(event, "mouseover") || is(event, "mouseout") {
        "web_sys::MouseEvent"
    } else if is(event, "input") {
        "web_sys::InputEvent"
    } else if is(event, "keydown") || is(event, "keyup") || is(event, "keypress") {
        "web_sys::KeyboardEvent"
    } else if is(event, "submit") {
        "web_sys::SubmitEvent"
    } else if is(event, "focus") || is(event, "blur") {
        "web_sys::FocusEvent"
    } else {
        "web_sys::Event"
    };
    (ty.to_owned(), setter)
}


/// The shape of a binding expression, as far as capture analysis reads it.
pub enum ExprShape {
    /// A path; `Some(name)` when it is a single identifier.
    Path(Option<String>),
    /// A method call; only its receiver is read.
    MethodCall(Box<ExprShape>),
    /// A call: the function and its arguments.
    Call(Box<ExprShape>, Vec<ExprShape>),
    /// A field access on a base.
    Field(Box<ExprShape>),
    Unary(Box<ExprShape>),
    Binary(Box<ExprShape>, Box<ExprShape>),
    Paren(Box<ExprShape>),
    Reference(Box<ExprShape>),
    /// A closure; only its body is read.
    Closure(Box<ExprShape>),
    /// A block: its statements, those that are no expression as `Other`.
    Block(Vec<ExprShape>),
    /// Anything else; it captures nothing.
    Other,
}

/// Words that are values, not variables: they are never captured.
pub open spec fn is_value_word(name: Seq<char>) -> bool {
    name == "true"@ || name == "false"@ || name == "None"@ || name == "Some"@
}

/// The identifiers an expression reads, in reading order, with repeats.
pub open spec fn names_in(e: ExprShape) -> Seq<Seq<char>>
    decreases e, 1nat,
{
    match e {
        ExprShape::Path(Some(n)) => if is_value_word(n@) { Seq::empty() } else { seq![n@] },
        ExprShape::Path(None) => Seq::empty(),
        ExprShape::MethodCall(r) => names_in(*r),
        ExprShape::Call(f, args) => names_in(*f) + names_in_all(args@),
        ExprShape::Field(b) => names_in(*b),
        ExprShape::Unary(x) => names_in(*x),
        ExprShape::Binary(l, r) => names_in(*l) + names_in(*r),
        ExprShape::Paren(x) => names_in(*x),
        ExprShape::Reference(x) => names_in(*x),
        ExprShape::Closure(b) => names_in(*b),
        ExprShape::Block(stmts) => names_in_all(stmts@),
        ExprShape::Other => Seq::empty(),
    }
}

/// The identifiers read by a sequence of expressions, in order.
pub open spec fn names_in_all(es: Seq<ExprShape>) -> Seq<Seq<char>>
    decreases es, 0nat,
{
    if es.len() == 0 {
        Seq::empty()
    } else {
        names_in_all(es.drop_last()) + names_in(es.last())
    }
}


/// The character sequences of some strings.
pub open spec fn name_views(v: Seq<String>) -> Seq<Seq<char>> {
    Seq::new(v.len(), |i: int| v[i]@)
}

fn is_value(name: &String) -> (r: bool)
    ensures
        r == is_value_word(name@),
{
    is(name, "true") || is(name, "false") || is(name, "None") || is(name, "Some")
}

/// Append the identifiers `e` reads to `vars`.
fn collect_idents(e: &ExprShape, vars: &mut Vec<String>)
    ensures
        name_views(final(vars)@) == name_views(old(vars)@) + names_in(*e),
    decreases e, 1nat,
{
    match e {
        ExprShape::Path(Some(n)) => {
            if !is_value(n) {
                vars.push(n.clone());
                assert(name_views(vars@) =~= name_views(old(vars)@) + seq![n@]);
            } else {
                assert(name_views(vars@) =~= name_views(old(vars)@) + Seq::<Seq<char>>::empty());
            }
        },
        ExprShape::Path(None) | ExprShape::Other => {
            assert(name_views(vars@) =~= name_views(old(vars)@) + Seq::<Seq<char>>::empty());
        },
        ExprShape::MethodCall(r) => collect_idents(r, vars),
        ExprShape::Call(f, args) => {
            collect_idents(f, vars);
            let ghost mid = name_views(vars@);
            collect_all(args, vars);
            assert(name_views(vars@) =~= name_views(old(vars)@) + (names_in(**f) + names_in_all(args@)));
        },
        ExprShape::Field(b) => collect_idents(b, vars),
        ExprShape::Unary(x) => collect_idents(x, vars),
        ExprShape::Binary(l, r) => {
            collect_idents(l, vars);
            collect_idents(r, vars);
            assert(name_views(vars@) =~= name_views(old(vars)@) + (names_in(**l) + names_in(**r)));
        },
        ExprShape::Paren(x) => collect_idents(x, vars),
        ExprShape::Reference(x) => collect_idents(x, vars),
        ExprShape::Closure(b) => collect_idents(b, vars),
        ExprShape::Block(stmts) => collect_all(stmts, vars),
    }
}

/// Append the identifiers each of `es` reads to `vars`, in order.
fn collect_all(es: &Vec<ExprShape>, vars: &mut Vec<String>)
    ensures
        name_views(final(vars)@) == name_views(old(vars)@) + names_in_all(es@),
    decreases es@, 0nat,
{
    let mut i: usize = 0;
    assert(es@.take(0) =~= Seq::<ExprShape>::empty());
    assert(name_views(vars@) =~= name_views(old(vars)@) + names_in_all(es@.take(0)));
    while i < es.len()
        invariant
            i <= es@.len(),
            name_views(vars@) == name_views(old(vars)@) + names_in_all(es@.take(i as int)),
        decreases es@.len() - i,
    {
        assert(es@.take(i + 1).drop_last() =~= es@.take(i as int));
        assert(es@.take(i + 1).last() == es@[i as int]);
        collect_idents(&es[i], vars);
        assert(name_views(vars@) =~= name_views(old(vars)@) + names_in_all(es@.take(i + 1)));
        i = i + 1;
    }
    assert(es@.take(es@.len() as int) =~= es@);
}

/// `names` is strictly increasing.
pub open spec fn increasing(names: Seq<Seq<char>>) -> bool {
    forall|a: int, b: int| 0 <= a < b < names.len() ==> text_lt(names[a], names[b])
}

fn less(a: &String, b: &String) -> (r: bool)
    ensures
        r == text_lt(a@, b@),
{
    text_less(&chars_of(a.as_str()), &chars_of(b.as_str()))
}

/// Insert `name` into the increasing `names` unless it is there already.
fn insert_sorted(names: &mut Vec<String>, name: String)
    requires
        increasing(name_views(old(names)@)),
    ensures
        increasing(name_views(final(names)@)),
        name_views(final(names)@).to_set() == name_views(old(names)@).to_set().insert(name@),
{
    let ghost v = name_views(names@);
    let mut p: usize = 0;
    while p < names.len() && less(&names[p], &name)
        invariant
            p <= names@.len(),
            name_views(names@) == v,
            forall|q: int| 0 <= q < p ==> text_lt(#[trigger] v[q], name@),
        decreases names@.len() - p,
    {
        p = p + 1;
    }
    if p < names.len() && names[p] == name {
        assert(v[p as int] == name@);
        assert(v.to_set().insert(name@) =~= v.to_set());
        return;
    }
    proof {
        if p < v.len() {
            lemma_text_lt_total(v[p as int], name@);
            assert(text_lt(name@, v[p as int]));
        }
    }
    names.insert(p, name);
    proof {
        let w = name_views(names@);
        assert(w =~= v.insert(p as int, name@));
        assert forall|a: int, b: int| 0 <= a < b < w.len() implies text_lt(w[a], w[b]) by {
            if b < p {
                assert(w[a] == v[a] && w[b] == v[b]);
            } else if a > p {
                assert(w[a] == v[a - 1] && w[b] == v[b - 1]);
            } else if b == p {
                assert(w[a] == v[a]);
            } else if a == p {
                assert(w[b] == v[b - 1]);
                if b - 1 > p {
                    lemma_text_lt_trans(name@, v[p as int], v[b - 1]);
                }
            } else {
                assert(w[a] == v[a] && w[b] == v[b - 1]);
            }
        }
        assert(w.to_set() =~= v.to_set().insert(name@)) by {
            assert forall|x: Seq<char>| w.to_set().contains(x) implies v.to_set().insert(name@).contains(x) by {
                let k = choose|k: int| 0 <= k < w.len() && w[k] == x;
                if k < p {
                    assert(v[k] == x);
                } else if k > p {
                    assert(v[k - 1] == x);
                }
            }
            assert forall|x: Seq<char>| v.to_set().insert(name@).contains(x) implies w.to_set().contains(x) by {
                if x == name@ {
                    assert(w[p as int] == x);
                } else {
                    let k = choose|k: int| 0 <= k < v.len() && v[k] == x;
                    if k < p {
                        assert(w[k] == x);
                    } else {
                        assert(w[k + 1] == x);
                    }
                }
            }
        }
    }
}

/// The identifiers a binding expression captures: each one it reads, once,
/// in sorted order; `true`, `false`, `None` and `Some` are not captured.
pub fn analyze_expr(e: &ExprShape) -> (r: Vec<String>)
    ensures
        increasing(name_views(r@)),
        name_views(r@).to_set() == names_in(*e).to_set(),
{
    let mut found: Vec<String> = Vec::new();
    collect_idents(e, &mut found);
    assert(name_views(found@) =~= names_in(*e));
    let mut r: Vec<String> = Vec::new();
    let mut i: usize = 0;
    assert(name_views(r@).to_set() =~= name_views(found@).take(0).to_set());
    while i < found.len()
        invariant
            i <= found@.len(),
            name_views(found@) == names_in(*e),
            increasing(name_views(r@)),
            name_views(r@).to_set() == name_views(found@).take(i as int).to_set(),
        decreases found@.len() - i,
    {
        let ghost before = name_views(found@).take(i as int);
        assert(name_views(found@).take(i + 1) =~= before.push(found@[i as int]@));
        proof {
            before.lemma_push_to_set_commute(found@[i as int]@);
        }
        insert_sorted(&mut r, found[i].clone());
        i = i + 1;
    }
    assert(name_views(found@).take(found@.len() as int) =~= name_views(found@));
    r
}


/// Whether `idents` holds `name`.
fn listed(idents: &Vec<String>, name: &String) -> (r: bool)
    ensures
        r == name_views(idents@).contains(name@),
{
    let mut i: usize = 0;
    while i < idents.len()
        invariant
            i <= idents@.len(),
            forall|j: int| 0 <= j < i ==> idents@[j]@ != name@,
        decreases idents@.len() - i,
    {
        if idents[i] == *name {
            assert(name_views(idents@)[i as int] == name@);
            return true;
        }
        i = i + 1;
    }
    proof {
        if name_views(idents@).contains(name@) {
            let k = choose|k: int| 0 <= k < name_views(idents@).len() && name_views(idents@)[k] == name@;
            assert(idents@[k]@ == name@);
        }
    }
    false
}

/// The name an identifier takes in a handler's body: its clone's name when
/// it is one of the captured `idents`, else `None` (it stays as it is).
pub fn renamed(ident: &String, idents: &Vec<String>) -> (r: Option<String>)
    ensures
        match r {
            Some(n) => name_views(idents@).contains(ident@) && n@ == ident@ + "_clone"@,
            None => !name_views(idents@).contains(ident@),
        },
{
    if listed(idents, ident) {
        Some(clone_name(ident))
    } else {
        None
    }
}

/// Whether an attribute is an event handler (its name starts with "on_").
pub open spec fn is_handler_name(name: Seq<char>) -> bool {
    name.len() >= 3 && name[0] == 'o' && name[1] == 'n' && name[2] == '_'
}

/// Whether the attribute `name` is an event handler.
pub fn is_handler_attr(name: &String) -> (r: bool)
    ensures
        r == is_handler_name(name@),
{
    let cs = chars_of(name.as_str());
    assert(cs@.skip(0) =~= cs@);
    starts_with_on(&cs, 0)
}

/// `s` without the double quotes at either end (`str::trim_matches('"')`).
pub open spec fn unquoted(s: Seq<char>) -> Seq<char>
    decreases s.len(),
{
    if s.len() > 0 && s[0] == '"' {
        unquoted(s.drop_first())
    } else if s.len() > 0 && s.last() == '"' {
        unquoted(s.drop_last())
    } else {
        s
    }
}

/// The text of a literal written with quotes.
pub fn unquote(s: &String) -> (r: String)
    ensures
        r@ == unquoted(s@),
{
    let cs = chars_of(s.as_str());
    let mut lo: usize = 0;
    let mut hi: usize = cs.len();
    assert(cs@.subrange(0, cs@.len() as int) =~= cs@);
    while lo < hi && (cs[lo] == '"' || cs[hi - 1] == '"')
        invariant
            lo <= hi <= cs@.len(),
            unquoted(cs@.subrange(lo as int, hi as int)) == unquoted(s@),
            cs@ == s@,
        decreases hi - lo,
    {
        let ghost t = cs@.subrange(lo as int, hi as int);
        if cs[lo] == '"' {
            assert(t.drop_first() =~= cs@.subrange(lo + 1, hi as int));
            lo = lo + 1;
        } else {
            assert(t.drop_last() =~= cs@.subrange(lo as int, hi - 1));
            hi = hi - 1;
        }
    }
    let mut out: Vec<char> = Vec::new();
    let mut k: usize = lo;
    while k < hi
        invariant
            lo <= k <= hi,
            hi <= cs@.len(),
            out@ == cs@.subrange(lo as int, k as int),
        decreases hi - k,
    {
        out.push(cs[k]);
        assert(cs@.subrange(lo as int, k + 1) =~= cs@.subrange(lo as int, k as int).push(cs@[k as int]));
        k = k + 1;
    }
    crate::text::string_of(&out)
}

} // verus!
