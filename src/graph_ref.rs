use vstd::prelude::*;

use crate::error::ValidationError;
use crate::text::{find_char, index_of};

verus! {

/// The variant a graph reference names when it names none.
pub open spec fn default_variant() -> Seq<char> {
    seq!['c', 'u', 'r', 'r', 'e', 'n', 't']
}

/// What a graph reference text means: the name before the first `@`, and the
/// variant after it, or `current` where there is no `@`. The name must not be
/// empty, nor the variant where an `@` is written.
pub open spec fn graph_ref_of(s: Seq<char>) -> Result<(Seq<char>, Seq<char>), ValidationError> {
    let at = index_of(s, '@');
    let name = s.take(at);
    if name.len() == 0 {
        Err(ValidationError::InvalidGraphRef)
    } else if at == s.len() {
        Ok((name, default_variant()))
    } else if s.skip(at + 1).len() == 0 {
        Err(ValidationError::InvalidGraphRef)
    } else {
        Ok((name, s.skip(at + 1)))
    }
}

/// A graph in the registry and one of its variants.
#[derive(Debug)]
pub struct GraphRef {
    name: String,
    variant: String,
}

impl GraphRef {
    /// The graph's name and its variant.
    pub closed spec fn view(&self) -> (Seq<char>, Seq<char>) {
        (self.name@, self.variant@)
    }

    /// Both parts are non-empty.
    pub open spec fn wf(&self) -> bool {
        self.view().0.len() > 0 && self.view().1.len() > 0
    }

    /// Reads `<NAME>@<VARIANT>`, or `<NAME>` alone for the `current` variant.
    pub fn parse(s: &str) -> (r: Result<GraphRef, ValidationError>)
        ensures
            match r {
                Ok(g) => graph_ref_of(s@) == Ok::<(Seq<char>, Seq<char>), ValidationError>(
                    g.view(),
                ) && g.wf(),
                Err(e) => graph_ref_of(s@) == Err::<(Seq<char>, Seq<char>), ValidationError>(e),
            },
    {
        let n = s.unicode_len();
        let at = find_char(s, 0, '@');
        assert(s@.skip(0) =~= s@);
        if at == 0 {
            return Err(ValidationError::InvalidGraphRef);
        }
        let name = s.substring_char(0, at).to_owned();
        assert(name@ =~= s@.take(at as int));
        if at == n {
            proof {
                reveal_strlit("current");
            }
            let variant = "current".to_owned();
            assert(variant@ =~= default_variant());
            return Ok(GraphRef { name, variant });
        }
        if at + 1 == n {
            return Err(ValidationError::InvalidGraphRef);
        }
        let variant = s.substring_char(at + 1, n).to_owned();
        assert(variant@ =~= s@.skip(at + 1));
        Ok(GraphRef { name, variant })
    }

    /// Whether both parts are non-empty.
    pub fn is_valid(&self) -> (r: bool)
        ensures
            r == self.wf(),
    {
        self.name.as_str().unicode_len() > 0 && self.variant.as_str().unicode_len() > 0
    }

    /// The graph's name.
    pub fn name(&self) -> (r: &String)
        ensures
            r@ == self.view().0,
    {
        &self.name
    }

    /// The graph's variant.
    pub fn variant(&self) -> (r: &String)
        ensures
            r@ == self.view().1,
    {
        &self.variant
    }

    /// The reference written out as `<NAME>@<VARIANT>`.
    pub fn to_text(&self) -> (r: String)
        ensures
            r@ == self.view().0 + seq!['@'] + self.view().1,
    {
        let mut r = self.name.clone();
        proof {
            reveal_strlit("@");
        }
        r.append("@");
        r.append(self.variant.as_str());
        r
    }

    /// A copy of the reference.
    pub fn duplicate(&self) -> (r: GraphRef)
        ensures
            r == *self,
    {
        GraphRef { name: self.name.clone(), variant: self.variant.clone() }
    }
}

/// Checks the name of a subgraph, which must not be empty.
pub fn validate_subgraph(name: &str) -> (r: Result<String, ValidationError>)
    ensures
        match r {
            Ok(v) => name@.len() > 0 && v@ == name@,
            Err(e) => name@.len() == 0 && e == ValidationError::EmptySubgraph,
        },
{
    if name.unicode_len() == 0 {
        Err(ValidationError::EmptySubgraph)
    } else {
        Ok(name.to_owned())
    }
}

} // verus!
