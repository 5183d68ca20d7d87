//! The server's own notification, which shows a message to the user.
use vstd::prelude::*;
use crate::diagnostics::{Diagnostic, diagnostic_views};

verus! {

/// The notification that asks the editor to show a message.
#[derive(Debug)]
pub struct ShowNotification;

/// How a shown message is presented.
#[derive(Clone, Copy, Debug, PartialEq, Eq, Structural)]
pub enum MessageType {
    Error,
    Warning,
    Info,
}

/// The parameters of the notification.
#[derive(Debug)]
pub struct ShowNotificationParams {
    pub message: String,
    pub message_type: MessageType,
}

impl ShowNotification {
    /// The protocol method of the notification.
    pub fn method() -> (r: &'static str)
        ensures
            r@ == "custom/showNotification"@,
    {
        "custom/showNotification"
    }
}

/// One error message for each diagnostic that has no span, in order, so that none
/// of them is lost.
pub fn popup_notifications(spanless: &Vec<Diagnostic>) -> (r: Vec<ShowNotificationParams>)
    ensures
        r@.len() == spanless@.len(),
        forall|i: int| 0 <= i < r@.len() ==> (#[trigger] r@[i]).message@ == diagnostic_views(spanless@)[i].message
            && r@[i].message_type == MessageType::Error,
{
    let mut result: Vec<ShowNotificationParams> = Vec::new();
    let mut i: usize = 0;
    while i < spanless.len()
        invariant
            i <= spanless@.len(),
            result@.len() == i,
            forall|k: int| 0 <= k < i ==> (#[trigger] result@[k]).message@ == spanless@[k].message@
                && result@[k].message_type == MessageType::Error,
        decreases spanless@.len() - i,
    {
        result.push(ShowNotificationParams { message: spanless[i].message.clone(), message_type: MessageType::Error });
        i = i + 1;
    }
    result
}

} // verus!
