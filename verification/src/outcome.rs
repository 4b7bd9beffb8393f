//! What the results of background work report back to the application,
//! and the call that opens a terminal.
use vstd::prelude::*;
use vstd::utf8::encode_utf8;

use crate::action::Action;
use crate::admin::client::AdminCall;
use crate::admin::error::{error_text_is, AdminError, AdminResult};
use crate::admin::{QubeInfo, QubeProperties};
use crate::text::push_str;

verus! {

/// The sum of the bytes `b`, wrapping at 2^64.
pub open spec fn byte_sum(b: Seq<u8>) -> u64
    decreases b.len(),
{
    if b.len() == 0 {
        0
    } else {
        byte_sum(b.drop_last()).wrapping_add(b.last() as u64)
    }
}

/// The id under which an operation on the qube `name` reports back: the
/// sum of the bytes of the name, wrapping.
pub fn op_id_of(name: &str) -> (r: u64)
    ensures
        r == byte_sum(encode_utf8(name@)),
{
    let b = name.as_bytes();
    let mut acc: u64 = 0;
    let mut i: usize = 0;
    while i < b.len()
        invariant
            0 <= i <= b@.len(),
            b@ == encode_utf8(name@),
            acc == byte_sum(b@.take(i as int)),
        decreases b@.len() - i,
    {
        assert(b@.take(i + 1).drop_last() =~= b@.take(i as int));
        acc = acc.wrapping_add(b[i] as u64);
        i += 1;
    }
    assert(b@.take(b@.len() as int) =~= b@);
    acc
}

/// The id under which failures that belong to no operation are reported.
pub const NO_OP: u64 = u64::MAX;

/// What a read of the qube list reports: the list, or a failure under no
/// operation.
pub fn list_outcome(r: AdminResult<Vec<QubeInfo>>) -> (a: Action)
    ensures
        match r {
            Ok(qs) => a == Action::QubeListLoaded(qs),
            Err(e) => a matches Action::OperationFailed { op_id, error } && op_id == NO_OP
                && error_text_is(e, error@),
        },
{
    match r {
        Ok(qubes) => Action::QubeListLoaded(qubes),
        Err(e) => Action::OperationFailed { op_id: NO_OP, error: e.to_string() },
    }
}

/// What a read of the properties of the qube `name` reports: the
/// properties; a failure reports nothing.
pub fn properties_outcome(name: String, r: AdminResult<QubeProperties>) -> (a: Option<Action>)
    ensures
        match r {
            Ok(p) => a == Some(Action::PropertiesLoaded { name, props: p }),
            Err(_) => a is None,
        },
{
    match r {
        Ok(props) => Some(Action::PropertiesLoaded { name, props }),
        Err(_) => None,
    }
}

/// What an operation reported under `op_id` reports when it ends: that it
/// completed, or that it failed and why.
pub fn op_outcome(op_id: u64, r: AdminResult<()>) -> (a: Action)
    ensures
        match r {
            Ok(_) => a == Action::OperationCompleted { op_id },
            Err(e) => a matches Action::OperationFailed { op_id: id, error } && id == op_id
                && error_text_is(e, error@),
        },
{
    match r {
        Ok(()) => Action::OperationCompleted { op_id },
        Err(e) => Action::OperationFailed { op_id, error: e.to_string() },
    }
}

/// What a failed setting of `property` reports: `set <property>: <why>`,
/// under no operation.
pub fn set_failure(property: &str, e: &AdminError) -> (a: Action)
    ensures
        a matches Action::OperationFailed { op_id, error } && op_id == NO_OP && {
            let head = "set "@ + property@ + ": "@;
            &&& error@.len() >= head.len()
            &&& error@.take(head.len() as int) == head
            &&& error_text_is(*e, error@.skip(head.len() as int))
        },
{
    let mut error = String::new();
    push_str(&mut error, "set ");
    push_str(&mut error, property);
    push_str(&mut error, ": ");
    let ghost head = error@;
    let why = e.to_string();
    push_str(&mut error, why.as_str());
    assert(error@.take(head.len() as int) =~= head);
    assert(error@.skip(head.len() as int) =~= why@);
    Action::OperationFailed { op_id: NO_OP, error }
}

/// The call that opens a terminal in the qube `name`: `qvm-run --service
/// --user=user <name> qubes.StartApp+qubes-run-terminal`.
pub fn terminal_call(name: &str) -> (c: AdminCall)
    ensures
        c matches AdminCall::Command { program, args } && program@ == "qvm-run"@ && args@.len()
            == 4 && args@[0]@ == "--service"@ && args@[1]@ == "--user=user"@ && args@[2]@ == name@
            && args@[3]@ == "qubes.StartApp+qubes-run-terminal"@,
{
    let args = vec![
        "--service".to_owned(),
        "--user=user".to_owned(),
        name.to_owned(),
        "qubes.StartApp+qubes-run-terminal".to_owned(),
    ];
    AdminCall::Command { program: "qvm-run".to_owned(), args }
}

} // verus!
