//! Layouts: texts with variables in square brackets.

use crate::oid::ObjectId;
use vstd::prelude::*;
use vstd::string::StringExecFns;

verus! {

/// `text` with every match of `pattern` replaced by `with`, as the standard
/// library's `str::replace` finds the matches.
pub uninterp spec fn replaced(text: Seq<char>, pattern: Seq<char>, with: Seq<char>) -> Seq<char>;

/// How a variable stands in a layout: its name in square brackets.
pub open spec fn placeholder(variable: Seq<char>) -> Seq<char> {
    seq!['['] + variable + seq![']']
}

/// The value that the list gives the variable: that of the first pair of
/// this name.
pub open spec fn value_of(values: Seq<(String, String)>, variable: Seq<char>) -> Option<Seq<char>>
    decreases values.len(),
{
    if values.len() == 0 {
        None
    } else if values.first().0@ == variable {
        Some(values.first().1@)
    } else {
        value_of(values.drop_first(), variable)
    }
}

/// What resolving the variables gives. Each variable in turn must have a
/// value, and its placeholder is replaced in the layout as it was given, so
/// that the outcome shows the value of the last variable alone. Without any
/// variable the outcome is the empty text.
pub open spec fn resolved(
    layout: Seq<char>,
    variables: Seq<String>,
    values: Seq<(String, String)>,
) -> Option<Seq<char>>
    decreases variables.len(),
{
    if variables.len() == 0 {
        Some(Seq::<char>::empty())
    } else if resolved(layout, variables.drop_last(), values) is None {
        None
    } else {
        match value_of(values, variables.last()@) {
            Some(value) => Some(replaced(layout, placeholder(variables.last()@), value)),
            None => None,
        }
    }
}

/// What a [`Layout`] stands for.
pub struct LayoutView {
    pub id: Seq<u8>,
    pub name: Seq<char>,
    pub layout: Seq<char>,
    pub variables: Seq<String>,
}

/// A named layout and the variables that stand in it.
#[derive(Debug)]
pub struct Layout {
    id: ObjectId,
    name: String,
    layout: String,
    variables: Vec<String>,
}

impl View for Layout {
    type V = LayoutView;

    closed spec fn view(&self) -> LayoutView {
        LayoutView {
            id: self.id@,
            name: self.name@,
            layout: self.layout@,
            variables: self.variables@,
        }
    }
}

impl Layout {
    /// A new layout under a fresh identifier. Refused when the name or the
    /// layout is empty.
    pub fn create(name: String, layout: String, variables: Vec<String>) -> (r: Option<Layout>)
        ensures
            r is Some <==> name@.len() > 0 && layout@.len() > 0,
            r matches Some(made) ==> made@.name == name@ && made@.layout == layout@
                && made@.variables == variables@,
    {
        if name.as_str().is_empty() || layout.as_str().is_empty() {
            return None;
        }
        Some(Layout { id: ObjectId::new(), name, layout, variables })
    }

    /// The layout that was stored with these values.
    pub fn restore(id: ObjectId, name: String, layout: String, variables: Vec<String>) -> (r:
        Layout)
        ensures
            r@ == (LayoutView {
                id: id@,
                name: name@,
                layout: layout@,
                variables: variables@,
            }),
    {
        Layout { id, name, layout, variables }
    }

    /// The identifier of the layout.
    pub fn id(&self) -> (r: ObjectId)
        ensures
            r@ == self@.id,
    {
        self.id
    }

    /// The name of the layout.
    pub fn name(&self) -> (r: &str)
        ensures
            r@ == self@.name,
    {
        self.name.as_str()
    }

    /// The text of the layout.
    pub fn layout(&self) -> (r: &str)
        ensures
            r@ == self@.layout,
    {
        self.layout.as_str()
    }

    /// The variables of the layout.
    pub fn variables(&self) -> (r: &Vec<String>)
        ensures
            r@ == self@.variables,
    {
        &self.variables
    }

    /// The layout with its variables resolved from a list of names and
    /// values, as [`resolved`] says; `None` where a variable has no value.
    pub fn resolve_variables(&self, variable_values: &Vec<(String, String)>) -> (r: Option<String>)
        ensures
            match r {
                Some(text) => resolved(self@.layout, self@.variables, variable_values@) == Some(
                    text@,
                ),
                None => resolved(self@.layout, self@.variables, variable_values@) is None,
            },
    {
        let mut resolved_string = String::new();
        let mut i: usize = 0;
        proof {
            reveal_strlit("[");
            reveal_strlit("]");
            assert(self.variables@.take(0) =~= Seq::<String>::empty());
        }
        while i < self.variables.len()
            invariant
                i <= self.variables@.len(),
                "["@ == seq!['['],
                "]"@ == seq![']'],
                resolved(self.layout@, self.variables@.take(i as int), variable_values@) == Some(
                    resolved_string@,
                ),
            decreases self.variables@.len() - i,
        {
            let variable = &self.variables[i];
            proof {
                assert(self.variables@.take(i + 1).drop_last() =~= self.variables@.take(i as int));
                assert(self.variables@.take(i + 1).last() == self.variables@[i as int]);
            }
            let value = match lookup(variable_values, variable.as_str()) {
                Some(value) => value,
                None => {
                    proof {
                        lemma_unresolved_stays(
                            self.layout@,
                            self.variables@,
                            variable_values@,
                            i + 1,
                        );
                    }
                    return None;
                },
            };
            let mut pattern = String::from_str("[");
            pattern.append(variable.as_str());
            pattern.append("]");
            assert(pattern@ =~= placeholder(variable@));
            resolved_string = replace_all(self.layout.as_str(), pattern.as_str(), value);
            i += 1;
        }
        assert(self.variables@.take(self.variables@.len() as int) =~= self.variables@);
        Some(resolved_string)
    }
}

/// The value that the list gives the variable.
fn lookup<'a>(values: &'a Vec<(String, String)>, variable: &str) -> (r: Option<&'a str>)
    ensures
        match r {
            Some(value) => value_of(values@, variable@) == Some(value@),
            None => value_of(values@, variable@) is None,
        },
{
    let mut i: usize = 0;
    assert(values@.skip(0) =~= values@);
    while i < values.len()
        invariant
            i <= values@.len(),
            value_of(values@, variable@) == value_of(values@.skip(i as int), variable@),
        decreases values@.len() - i,
    {
        proof {
            assert(values@.skip(i as int).first() == values@[i as int]);
            assert(values@.skip(i as int).drop_first() =~= values@.skip(i + 1));
        }
        if same_text(values[i].0.as_str(), variable) {
            return Some(values[i].1.as_str());
        }
        i += 1;
    }
    None
}

/// Whether two texts hold the same characters.
fn same_text(a: &str, b: &str) -> (r: bool)
    ensures
        r == (a@ == b@),
{
    a.to_owned() == b.to_owned()
}

/// Once a variable has no value, the variables that follow cannot mend it.
proof fn lemma_unresolved_stays(
    layout: Seq<char>,
    variables: Seq<String>,
    values: Seq<(String, String)>,
    n: int,
)
    requires
        0 <= n <= variables.len(),
        resolved(layout, variables.take(n), values) is None,
    ensures
        resolved(layout, variables, values) is None,
    decreases variables.len() - n,
{
    if n < variables.len() {
        assert(variables.take(n + 1).drop_last() =~= variables.take(n));
        lemma_unresolved_stays(layout, variables, values, n + 1);
    } else {
        assert(variables.take(n) =~= variables);
    }
}

/// Calls the standard library: `str::replace`.
///
/// Trusted: the outcome depends on the three texts alone.
#[verifier::external_body]
fn replace_all(text: &str, pattern: &str, with: &str) -> (r: String)
    ensures
        r@ == replaced(text@, pattern@, with@),
{
    text.replace(pattern, with)
}

} // verus!
