//! How values are written out as text.

use vstd::prelude::*;
use vstd::string::StringExecFns;
use crate::common::{list_model, Value, ValueModel};
use crate::numbers::{shows_as, Numbers};

verus! {

/// The text of a value: `null`, `true` or `false`, a number as `n.show`
/// writes it, a string as it is, a list in square brackets with its items
/// separated by a comma and a space, a function as `<function: name>`.
pub open spec fn display(n: Numbers, v: ValueModel) -> Seq<char>
    decreases v, 0nat,
{
    match v {
        ValueModel::Null => "null"@,
        ValueModel::Bool(b) => if b {
            "true"@
        } else {
            "false"@
        },
        ValueModel::Num(x) => (n.show)(x),
        ValueModel::Str(s) => s,
        ValueModel::List(items) => "["@ + display_joined(n, items, items.len()) + "]"@,
        ValueModel::Func(name) => "<function: "@ + name + ">"@,
    }
}

/// The texts of the first `k` of `items`, separated by a comma and a space.
pub open spec fn display_joined(n: Numbers, items: Seq<ValueModel>, k: nat) -> Seq<char>
    decreases items, k,
{
    if k == 0 || k > items.len() {
        Seq::empty()
    } else if k == 1 {
        display(n, items[0])
    } else {
        display_joined(n, items, (k - 1) as nat) + ", "@ + display(n, items[k - 1])
    }
}

/// Writes a value out as [`display`] says, with `show` for its numbers.
pub fn display_value<S: Fn(u64) -> String>(v: &Value, show: &S) -> (text: String)
    requires
        forall|x: u64| show.requires((x,)),
    ensures
        forall|n: Numbers| #[trigger] shows_as(show, n) ==> text@ == display(n, v@),
    decreases v,
{
    match v {
        Value::Null => String::from_str("null"),
        Value::Bool(b) => if *b {
            String::from_str("true")
        } else {
            String::from_str("false")
        },
        Value::Num(x) => show(*x),
        Value::Str(s) => s.clone(),
        Value::List(items) => {
            let mut text = String::from_str("[");
            let mut i: usize = 0;
            proof {
                list_model(*v);
            }
            while i < items.len()
                invariant
                    v is List,
                    v->List_0 == *items,
                    i <= items.len(),
                    forall|x: u64| show.requires((x,)),
                    forall|n: Numbers| #[trigger]
                        shows_as(show, n) ==> text@ == "["@ + display_joined(
                            n,
                            v@->List_0,
                            i as nat,
                        ),
                decreases items.len() - i,
            {
                proof {
                    list_model(*v);
                }
                if i > 0 {
                    text.append(", ");
                }
                assert(decreases_to!(items => items[i as int]));
                let item = display_value(&items[i], show);
                text.append(item.as_str());
                assert forall|n: Numbers| #[trigger] shows_as(show, n) implies text@ == "["@
                    + display_joined(n, v@->List_0, (i + 1) as nat) by {
                    if i == 0 {
                        assert(display_joined(n, v@->List_0, 0) =~= Seq::<char>::empty());
                        assert(text@ =~= "["@ + display(n, v@->List_0[0]));
                    } else {
                        assert(text@ =~= "["@ + (display_joined(n, v@->List_0, i as nat) + ", "@
                            + display(n, v@->List_0[i as int])));
                    }
                }
                i += 1;
            }
            text.append("]");
            proof {
                list_model(*v);
            }
            text
        },
        Value::Func(name) => {
            let mut text = String::from_str("<function: ");
            text.append(name.as_str());
            text.append(">");
            text
        },
    }
}

} // verus!
