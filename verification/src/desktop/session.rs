//! What the desktop session remembers between commands: the host the
//! client is bound to, the server the user picked, and the live
//! subscriptions.

use std::collections::HashSet;

use vstd::prelude::*;
use vstd::std_specs::hash::*;
use vstd::std_specs::iter::IteratorSpec;
use vstd::string::*;

use crate::client::types::OpcError;
use crate::text::{decimal, push_decimal_u64};

verus! {

broadcast use vstd::std_specs::hash::group_hash_axioms;

/// Errors of desktop commands.  Errors of the UI runtime and of JSON
/// encoding are carried by their message.
pub enum DesktopError {
    /// The OPC backend failed.
    Opc(OpcError),
    /// The UI runtime failed.
    Tauri(String),
    /// JSON encoding failed.
    Serde(String),
    /// An unknown server or subscription was named.
    NotFound(String),
    /// No server has been picked yet.
    NotConnected,
    /// Anything else.
    Other(String),
}

/// The kind tag the web view sees for an error.
pub open spec fn kind_of(e: DesktopError) -> Seq<char> {
    match e {
        DesktopError::Opc(_) => "opc"@,
        DesktopError::Tauri(_) => "tauri"@,
        DesktopError::Serde(_) => "serde"@,
        DesktopError::NotFound(_) => "not_found"@,
        DesktopError::NotConnected => "not_connected"@,
        DesktopError::Other(_) => "other"@,
    }
}

impl DesktopError {
    /// An `Other` error with message `msg`.
    pub fn other(msg: String) -> (e: Self)
        ensures
            e matches DesktopError::Other(m) && m@ == msg@,
    {
        DesktopError::Other(msg)
    }

    /// The kind tag the web view sees.
    pub fn kind(&self) -> (r: &'static str)
        ensures
            r@ == kind_of(*self),
    {
        match self {
            DesktopError::Opc(_) => "opc",
            DesktopError::Tauri(_) => "tauri",
            DesktopError::Serde(_) => "serde",
            DesktopError::NotFound(_) => "not_found",
            DesktopError::NotConnected => "not_connected",
            DesktopError::Other(_) => "other",
        }
    }
}

/// The message of a subscription that is not active.
pub open spec fn unknown_subscription_text(cookie: u32) -> Seq<char> {
    "subscription "@ + decimal(cookie as nat)
}

/// The session: bound host, picked server, live subscription cookies.
pub struct SessionState {
    current_host: String,
    connected_prog_id: Option<String>,
    active_cookies: HashSet<u32>,
}

impl SessionState {
    /// The host the client is bound to.
    pub closed spec fn host(&self) -> Seq<char> {
        self.current_host@
    }

    /// The picked server, if any.
    pub closed spec fn prog_id_view(&self) -> Option<Seq<char>> {
        match self.connected_prog_id {
            Some(p) => Some(p@),
            None => None,
        }
    }

    /// The live subscriptions.
    pub closed spec fn cookies(&self) -> Set<u32> {
        self.active_cookies@
    }

    /// A session bound to `localhost`, no server picked, no subscription.
    pub fn new() -> (r: Self)
        ensures
            r.host() == "localhost"@,
            r.prog_id_view() is None,
            r.cookies() == Set::<u32>::empty(),
    {
        SessionState {
            current_host: String::from_str("localhost"),
            connected_prog_id: None,
            active_cookies: HashSet::new(),
        }
    }

    /// The picked server, or `NotConnected`.
    pub fn prog_id(&self) -> (r: Result<String, DesktopError>)
        ensures
            self.prog_id_view() matches Some(p) ==> (r matches Ok(s) && s@ == p),
            self.prog_id_view() is None ==> (r matches Err(e) && e is NotConnected),
    {
        match &self.connected_prog_id {
            Some(p) => Ok(p.clone()),
            None => Err(DesktopError::NotConnected),
        }
    }

    /// Picks server `prog_id`.
    pub fn set_prog_id(&mut self, prog_id: String)
        ensures
            final(self).prog_id_view() == Some(prog_id@),
            final(self).host() == old(self).host(),
            final(self).cookies() == old(self).cookies(),
    {
        self.connected_prog_id = Some(prog_id);
    }

    /// Forgets the picked server.
    pub fn clear_prog_id(&mut self)
        ensures
            final(self).prog_id_view() is None,
            final(self).host() == old(self).host(),
            final(self).cookies() == old(self).cookies(),
    {
        self.connected_prog_id = None;
    }

    /// Records a live subscription.
    pub fn register_cookie(&mut self, cookie: u32)
        ensures
            final(self).cookies() == old(self).cookies().insert(cookie),
            final(self).host() == old(self).host(),
            final(self).prog_id_view() == old(self).prog_id_view(),
    {
        self.active_cookies.insert(cookie);
    }

    /// Forgets a subscription; `false` when it was not live.
    pub fn forget_cookie(&mut self, cookie: u32) -> (was_active: bool)
        ensures
            was_active == old(self).cookies().contains(cookie),
            final(self).cookies() == old(self).cookies().remove(cookie),
            final(self).host() == old(self).host(),
            final(self).prog_id_view() == old(self).prog_id_view(),
    {
        self.active_cookies.remove(&cookie)
    }

    /// Forgets a subscription the user stops: `NotFound("subscription
    /// <cookie>")` when it was not live.
    pub fn forget_for_unsubscribe(&mut self, cookie: u32) -> (r: Result<(), DesktopError>)
        ensures
            old(self).cookies().contains(cookie) ==> r is Ok,
            !old(self).cookies().contains(cookie) ==> (r matches Err(DesktopError::NotFound(m)) && m@
                == unknown_subscription_text(cookie)),
            final(self).cookies() == old(self).cookies().remove(cookie),
            final(self).host() == old(self).host(),
            final(self).prog_id_view() == old(self).prog_id_view(),
    {
        if self.active_cookies.remove(&cookie) {
            Ok(())
        } else {
            let mut m = String::from_str("subscription ");
            push_decimal_u64(&mut m, cookie as u64);
            Err(DesktopError::NotFound(m))
        }
    }

    /// Binds the session to `host` after the new client was built: `None`
    /// when it is the bound host already (nothing changes); else the
    /// subscriptions of the old client to tear down, every one of them
    /// exactly once, and the session now has the new host, no picked
    /// server and no live subscription.
    pub fn switch_host(&mut self, host: &str) -> (r: Option<Vec<u32>>)
        ensures
            host@ == old(self).host() ==> r is None && final(self).host() == old(self).host()
                && final(self).prog_id_view() == old(self).prog_id_view() && final(self).cookies() == old(
                self,
            ).cookies(),
            host@ != old(self).host() ==> (r matches Some(v) && v@.to_set() == old(self).cookies()
                && v@.no_duplicates()) && final(self).host() == host@ && final(self).prog_id_view() is None
                && final(self).cookies() == Set::<u32>::empty(),
    {
        if crate::text::str_eq(self.current_host.as_str(), host) {
            return None;
        }
        let mut cookies: Vec<u32> = Vec::new();
        let s = &self.active_cookies;
        let ghost s0 = spec_hash_keys_iter(s).remaining();
        for c in it: s.iter()
            invariant
                it.seq() == s0,
                s0 == spec_hash_keys_iter(s).remaining(),
                cookies@ == s0.take(it.index() as int).map_values(|r: &u32| *r),
        {
            cookies.push(*c);
            assert(cookies@ =~= s0.take(it.index() + 1).map_values(|r: &u32| *r));
        }
        proof {
            assert(s0.take(s0.len() as int) =~= s0);
            assert(cookies@ =~= s0.unref());
        }
        self.active_cookies.clear();
        self.connected_prog_id = None;
        self.current_host = String::from_str(host);
        Some(cookies)
    }
}

} // verus!
