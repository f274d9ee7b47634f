//! The desktop's side of a transfer: holding off suspend while sending, and
//! the notice that a transfer has finished.

use vstd::prelude::*;
use crate::text::{decimal, push_decimal, push_str};

verus! {

/// The cookie of the suspend inhibition this application holds, if any.
#[derive(Debug)]
pub struct SuspendInhibition {
    cookie: Option<u32>,
}

impl View for SuspendInhibition {
    type V = Option<u32>;

    closed spec fn view(&self) -> Option<u32> {
        self.cookie
    }
}

impl SuspendInhibition {
    /// Suspend is not held off.
    pub fn new() -> (r: Self)
        ensures
            r@ is None,
    {
        SuspendInhibition { cookie: None }
    }

    /// Whether suspend is held off; then asking again is not needed.
    pub fn is_inhibited(&self) -> (r: bool)
        ensures
            r == self@ is Some,
    {
        self.cookie.is_some()
    }

    /// Keeps the cookie the desktop answered a request to hold off suspend
    /// with; zero means that the request was refused.
    pub fn record(&mut self, cookie: u32)
        requires
            old(self)@ is None,
        ensures
            final(self)@ == (if cookie != 0 { Some(cookie) } else { None }),
    {
        if cookie != 0 {
            self.cookie = Some(cookie);
        }
    }

    /// Gives up the inhibition: the cookie to hand back to the desktop, if
    /// one is held.
    pub fn release(&mut self) -> (r: Option<u32>)
        ensures
            r == old(self)@,
            final(self)@ is None,
    {
        let r = self.cookie;
        self.cookie = None;
        r
    }
}

/// The body of the notice that a transfer has finished.
pub fn notification_body(target_name: &str, item_count: usize) -> (r: String)
    ensures
        r@ == "已向 "@ + target_name@ + " 发送 "@ + decimal(item_count as nat) + " 个文件。"@,
{
    let mut s = String::new();
    push_str(&mut s, "已向 ");
    push_str(&mut s, target_name);
    push_str(&mut s, " 发送 ");
    push_decimal(&mut s, item_count as u128);
    push_str(&mut s, " 个文件。");
    s
}

} // verus!
