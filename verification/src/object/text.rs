//! Textual description of objects
use vstd::prelude::*;

use crate::object::TopologyObject;

verus! {

/// Call by which hwloc is asked to turn an aspect of an object into text
#[derive(Clone, Copy, Debug, Hash, PartialEq, Eq)]
pub enum TextCall {
    /// `hwloc_obj_type_snprintf()`
    Type { verbose: i32 },
    /// `hwloc_obj_attr_snprintf()`
    Attr { separator: &'static str, verbose: i32 },
}

/// Textual description
impl TopologyObject {
    /// Separator that hwloc is to put between the attributes of an object
    pub open spec fn separator(alternate: bool) -> Seq<char> {
        if alternate {
            "\n  "@
        } else {
            "  "@
        }
    }

    /// Description of an object, out of the text of its type and attributes
    pub open spec fn description(ty: Seq<char>, attr: Seq<char>, alternate: bool) -> Seq<char> {
        if attr.len() == 0 {
            ty
        } else if alternate {
            ty + " (\n  "@ + attr + "\n)"@
        } else {
            ty + " ("@ + attr + ")"@
        }
    }

    /// Separator that hwloc is to put between the attributes of an object when
    /// it turns them into text
    pub fn attr_separator(alternate: bool) -> (separator: &'static str)
        ensures
            separator@ == Self::separator(alternate),
    {
        if alternate {
            "\n  "
        } else {
            "  "
        }
    }

    /// Calls by which hwloc is asked for the type of an object, then for its
    /// attributes
    pub fn text_calls(verbose: bool, alternate: bool) -> (calls: (TextCall, TextCall))
        ensures
            calls.0 == (TextCall::Type { verbose: if verbose { 1 } else { 0 } }),
            calls.1 matches TextCall::Attr { separator, verbose: attr_verbose } && separator@
                == Self::separator(alternate) && attr_verbose == if verbose {
                1i32
            } else {
                0
            },
    {
        let verbose: i32 = if verbose {
            1
        } else {
            0
        };
        let separator = TopologyObject::attr_separator(alternate);
        (TextCall::Type { verbose }, TextCall::Attr { separator, verbose })
    }

    /// Display the type and attributes of an object, given their texts as hwloc
    /// wrote them
    pub fn display(ty: &str, attr: &str, alternate: bool) -> (text: String)
        ensures
            text@ == Self::description(ty@, attr@, alternate),
    {
        if attr.is_empty() {
            ty.to_owned()
        } else if alternate {
            ty.to_owned().concat(" (\n  ").concat(attr).concat("\n)")
        } else {
            ty.to_owned().concat(" (").concat(attr).concat(")")
        }
    }
}

/// A description starts with the type, which is all of it if there are no attributes, and
/// otherwise has the attributes between parentheses, on lines of their own if this is the
/// alternate form
pub proof fn law_description(ty: Seq<char>, attr: Seq<char>, alternate: bool)
    ensures
        TopologyObject::description(ty, Seq::empty(), alternate) == ty,
        attr.len() > 0 ==> {
            let text = TopologyObject::description(ty, attr, alternate);
            let open: int = if alternate {
                5
            } else {
                2
            };
            let close: int = if alternate {
                2
            } else {
                1
            };
            &&& text.len() == ty.len() + open + attr.len() + close
            &&& text.take(ty.len() as int) == ty
            &&& text[ty.len() as int] == ' '
            &&& text[ty.len() + 1int] == '('
            &&& text.skip(ty.len() + open).take(attr.len() as int) == attr
            &&& text.last() == ')'
            &&& alternate ==> {
                &&& text[ty.len() + 2int] == '\n'
                &&& text[ty.len() + 3int] == ' '
                &&& text[ty.len() + 4int] == ' '
                &&& text[text.len() - 2] == '\n'
            }
        },
{
    reveal_strlit(" (\n  ");
    reveal_strlit("\n)");
    reveal_strlit(" (");
    reveal_strlit(")");
    if attr.len() > 0 {
        let text = TopologyObject::description(ty, attr, alternate);
        let open: int = if alternate {
            5
        } else {
            2
        };
        assert(text.take(ty.len() as int) =~= ty);
        assert(text.skip(ty.len() + open).take(attr.len() as int) =~= attr);
    }
}

/// Attributes are separated by two spaces, at the start of a line if this is the alternate
/// form
pub proof fn law_separator(alternate: bool)
    ensures
        ({
            let separator = TopologyObject::separator(alternate);
            let start: int = if alternate {
                1
            } else {
                0
            };
            &&& separator.len() == start + 2
            &&& alternate ==> separator[0] == '\n'
            &&& separator[start] == ' '
            &&& separator[start + 1] == ' '
        }),
{
    reveal_strlit("\n  ");
    reveal_strlit("  ");
}

} // verus!
