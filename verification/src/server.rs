//! Listener settings.
use vstd::prelude::*;
use crate::text::{decimal, push_decimal};

verus! {

/// The `address:port` text that a listener binds to.
pub fn bind_address(address: &str, port: u16) -> (r: String)
    ensures
        r@ == address@ + seq![':'] + decimal(port as nat),
{
    let mut r = String::new();
    r.append(address);
    crate::text::push_char(&mut r, ':');
    push_decimal(&mut r, port as u64);
    assert(r@ =~= address@ + seq![':'] + decimal(port as nat));
    r
}

} // verus!
