//! Placement rules: what to do with a window of a given class when it appears.
use vstd::prelude::*;

verus! {

/// A window property a rule matches on. Only the class is supported.
#[derive(Debug, PartialEq)]
pub enum Property {
    Class(String),
}

/// What a matching rule does to the window.
#[derive(Debug, PartialEq)]
pub enum Apply {
    Workspace(usize),
    Fullscreen,
    Float,
}

/// A rule applied to a window when it is first managed.
#[derive(Debug, PartialEq)]
pub struct Rule {
    pub property: Property,
    pub apply: Apply,
}

impl Rule {
    /// Creates a rule from its property and effect.
    pub fn new(property: Property, apply: Apply) -> (r: Rule)
        ensures
            r.property == property,
            r.apply == apply,
    {
        Rule { property, apply }
    }

    /// Whether the rule matches a window whose class parts are `c1` and `c2`.
    pub open spec fn matches(&self, c1: Seq<char>, c2: Seq<char>) -> bool {
        match self.property {
            Property::Class(c) => c@ == c1 || c@ == c2,
        }
    }
}

/// What the rules decided for a new window.
#[derive(Clone, Copy, Debug, PartialEq, Eq, Structural)]
pub struct Directive {
    /// Whether the layout's border is drawn around it.
    pub draw_border: bool,
    /// Whether it goes to the out-of-layout (floating) list.
    pub floating: bool,
    /// The workspace it goes to.
    pub workspace: usize,
    /// Whether a fullscreen rule matched: the window is then given the
    /// screen's whole area.
    pub fullscreen: bool,
}

/// The directive when no rule matches: bordered, managed, on `workspace`.
pub open spec fn default_directive(workspace: usize) -> Directive {
    Directive { draw_border: true, floating: false, workspace, fullscreen: false }
}

/// One effect applied over a directive, overwriting the fields it sets.
pub open spec fn apply_effect(d: Directive, a: Apply) -> Directive {
    match a {
        Apply::Workspace(n) => Directive { workspace: n, ..d },
        Apply::Float => Directive { floating: true, ..d },
        Apply::Fullscreen => Directive { floating: true, draw_border: false, fullscreen: true, ..d },
    }
}

/// The first `k` rules applied in order to `d`, each matching one overwriting
/// what the earlier ones set.
pub open spec fn apply_all(rules: Seq<Rule>, k: int, c1: Seq<char>, c2: Seq<char>, d: Directive) -> Directive
    decreases k,
{
    if k <= 0 {
        d
    } else {
        let before = apply_all(rules, k - 1, c1, c2, d);
        if rules[k - 1].matches(c1, c2) {
            apply_effect(before, rules[k - 1].apply)
        } else {
            before
        }
    }
}

/// The directive for a window of class `(c1, c2)`, or with no known class.
pub open spec fn directive_for(rules: Seq<Rule>, class: Option<(Seq<char>, Seq<char>)>, current: usize) -> Directive {
    match class {
        Some((c1, c2)) => apply_all(rules, rules.len() as int, c1, c2, default_directive(current)),
        None => default_directive(current),
    }
}

/// Applies every rule in declaration order to a window of class `class`
/// (`None` when it could not be read); the window would otherwise go to
/// workspace `current`.
pub fn apply_rules(rules: &Vec<Rule>, class: &Option<(String, String)>, current: usize) -> (r: Directive)
    ensures
        r == directive_for(
            rules@,
            match class {
                Some((a, b)) => Some((a@, b@)),
                None => None,
            },
            current,
        ),
{
    let mut d = Directive { draw_border: true, floating: false, workspace: current, fullscreen: false };
    match class {
        None => d,
        Some((c1, c2)) => {
            let mut i: usize = 0;
            while i < rules.len()
                invariant
                    0 <= i <= rules@.len(),
                    d == apply_all(rules@, i as int, c1@, c2@, default_directive(current)),
                decreases rules@.len() - i,
            {
                let rule = &rules[i];
                let hit = match &rule.property {
                    Property::Class(c) => *c == *c1 || *c == *c2,
                };
                if hit {
                    d = match rule.apply {
                        Apply::Workspace(n) => Directive { workspace: n, ..d },
                        Apply::Float => Directive { floating: true, ..d },
                        Apply::Fullscreen => Directive { floating: true, draw_border: false, fullscreen: true, ..d },
                    };
                }
                i = i + 1;
            }
            d
        },
    }
}

/// Of the rules matching a class, the one declared last decides the
/// workspace: appending a matching workspace rule sends the window there,
/// whatever the earlier rules said.
pub proof fn lemma_last_match_wins(
    rules: Seq<Rule>,
    c1: Seq<char>,
    c2: Seq<char>,
    current: usize,
    n: usize,
    later: Rule,
)
    requires
        later.matches(c1, c2),
        later.apply == Apply::Workspace(n),
    ensures
        directive_for(rules.push(later), Some((c1, c2)), current).workspace == n,
{
    let rs = rules.push(later);
    assert(rs[rs.len() - 1] == later);
}

/// Two matching workspace rules in a row: the window lands on the one
/// declared later.
pub proof fn lemma_two_workspace_rules(
    first: Rule,
    second: Rule,
    c1: Seq<char>,
    c2: Seq<char>,
    current: usize,
    n1: usize,
    n2: usize,
)
    requires
        first.matches(c1, c2),
        second.matches(c1, c2),
        first.apply == Apply::Workspace(n1),
        second.apply == Apply::Workspace(n2),
    ensures
        directive_for(seq![first, second], Some((c1, c2)), current).workspace == n2,
{
    lemma_last_match_wins(seq![first], c1, c2, current, n2, second);
    assert(seq![first].push(second) =~= seq![first, second]);
}

/// Index of the first NUL of `v` at or after `from`, or `v.len()`.
pub open spec fn first_nul(v: Seq<u8>, from: int) -> int
    decreases v.len() - from,
{
    if from >= v.len() {
        v.len() as int
    } else if v[from] == 0 {
        from
    } else {
        first_nul(v, from + 1)
    }
}

/// A `WM_CLASS` property value, two strings each ended by a NUL, split into
/// its instance and class parts (the final NUL dropped); `None` when no
/// separator is left.
pub open spec fn class_parts(value: Seq<u8>) -> Option<(Seq<u8>, Seq<u8>)> {
    let v = if value.len() > 0 { value.drop_last() } else { value };
    let p = first_nul(v, 0);
    if p >= v.len() {
        None
    } else {
        Some((v.subrange(0, p), v.subrange(p + 1, first_nul(v, p + 1))))
    }
}

/// Index of the first NUL among the first `end` bytes of `v`, from `from` on,
/// or `end` when there is none.
fn find_nul(v: &Vec<u8>, from: usize, end: usize) -> (r: usize)
    requires
        from <= end <= v@.len(),
    ensures
        r == first_nul(v@.subrange(0, end as int), from as int),
        from <= r <= end,
{
    let ghost w = v@.subrange(0, end as int);
    let mut i = from;
    while i < end
        invariant
            from <= i <= end <= v@.len(),
            w == v@.subrange(0, end as int),
            first_nul(w, i as int) == first_nul(w, from as int),
        decreases end - i,
    {
        if v[i] == 0 {
            return i;
        }
        i = i + 1;
    }
    i
}

fn copy_range(v: &Vec<u8>, from: usize, to: usize) -> (r: Vec<u8>)
    requires
        from <= to <= v@.len(),
    ensures
        r@ == v@.subrange(from as int, to as int),
{
    let mut r: Vec<u8> = Vec::new();
    let mut i = from;
    while i < to
        invariant
            from <= i <= to <= v@.len(),
            r@ == v@.subrange(from as int, i as int),
        decreases to - i,
    {
        r.push(v[i]);
        i = i + 1;
        proof {
            assert(r@ =~= v@.subrange(from as int, i as int));
        }
    }
    r
}

/// Splits a raw `WM_CLASS` value into its two parts; `None` when it holds no
/// separator.
pub fn split_class(value: &Vec<u8>) -> (r: Option<(Vec<u8>, Vec<u8>)>)
    ensures
        r matches Some((a, b)) ==> class_parts(value@) == Some((a@, b@)),
        r is None <==> class_parts(value@) is None,
{
    let len = if value.len() > 0 {
        value.len() - 1
    } else {
        0
    };
    let ghost v = if value@.len() > 0 { value@.drop_last() } else { value@ };
    assert(v =~= value@.subrange(0, len as int));
    let p = find_nul(value, 0, len);
    if p == len {
        return None;
    }
    let e = find_nul(value, p + 1, len);
    let a = copy_range(value, 0, p);
    let b = copy_range(value, p + 1, e);
    proof {
        assert(a@ =~= v.subrange(0, p as int));
        assert(b@ =~= v.subrange(p + 1, e as int));
    }
    Some((a, b))
}

} // verus!
