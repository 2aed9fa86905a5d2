//! What the window remembers of the pages it was asked to load, when an
//! open request navigates, what a failed open reports, and the state shown
//! to extensions.
use vstd::prelude::*;

use crate::admission::admitted;
use crate::text::{lemma_trim_idempotent, trim};

verus! {

/// The address is an `https` URL: it starts with `https:`.
pub open spec fn is_https_address(t: Seq<char>) -> bool {
    t.len() >= 6 && t.subrange(0, 6) == "https:"@
}

/// An address that an open request has loaded: always an `https` URL.
#[derive(Debug)]
pub struct HttpsAddress {
    text: String,
}

impl View for HttpsAddress {
    type V = Seq<char>;

    closed spec fn view(&self) -> Seq<char> {
        self.text@
    }
}

impl HttpsAddress {
    #[verifier::type_invariant]
    spec fn is_https(&self) -> bool {
        is_https_address(self.text@)
    }

    pub fn new(text: String) -> (a: Self)
        requires
            is_https_address(text@),
        ensures
            a@ == text@,
    {
        HttpsAddress { text }
    }

    pub fn as_str(&self) -> (r: &str)
        ensures
            r@ == self@,
            is_https_address(r@),
    {
        proof {
            use_type_invariant(self);
        }
        self.text.as_str()
    }
}

/// The address that the window was last asked to load: empty before the
/// first navigation, an `https` address after it. It is kept across hiding:
/// closing the window only hides it, the page stays.
pub struct NavigationMemory {
    requested: String,
}

impl View for NavigationMemory {
    type V = Seq<char>;

    closed spec fn view(&self) -> Seq<char> {
        self.requested@
    }
}

/// What the memory can hold: nothing yet, or an `https` address.
pub open spec fn empty_or_https(t: Seq<char>) -> bool {
    t.len() == 0 || is_https_address(t)
}

impl NavigationMemory {
    #[verifier::type_invariant]
    spec fn holds_empty_or_https(&self) -> bool {
        empty_or_https(self.requested@)
    }

    /// Nothing requested yet.
    pub fn new() -> (m: Self)
        ensures
            m@ == Seq::<char>::empty(),
    {
        NavigationMemory { requested: String::new() }
    }

    /// The address last requested (empty before the first navigation).
    pub fn requested_url(&self) -> (r: String)
        ensures
            r@ == self@,
            empty_or_https(r@),
    {
        proof {
            use_type_invariant(self);
        }
        self.requested.clone()
    }

    /// Remembers that `address` was loaded. Once it has, the memory is never
    /// empty again.
    pub fn record(&mut self, address: &HttpsAddress)
        ensures
            final(self)@ == address@,
            is_https_address(final(self)@),
    {
        let text = address.as_str();
        self.requested = String::from_str(text);
    }
}

/// The remembered address as seen through a lock: `None` when the lock could
/// not be taken.
pub open spec fn remembered(memory: Option<&NavigationMemory>) -> Option<Seq<char>> {
    match memory {
        Some(m) => Some(m@),
        None => None,
    }
}

/// An open request loads `target` when a reload is asked for, when the
/// memory cannot be read, or when `target` differs from the address last
/// requested.
pub open spec fn navigation_needed(memory: Option<Seq<char>>, target: Seq<char>, reload: bool) -> bool {
    reload || match memory {
        Some(m) => m != target,
        None => true,
    }
}

pub open spec fn navigation_failure_message(detail: Seq<char>) -> Seq<char> {
    "FAILED: 导航失败（"@ + detail + "）"@
}

pub open spec fn missing_window_message() -> Seq<char> {
    "NOT_FOUND: 外部网页窗口不存在（启动期预创建失败），重启 x-hub 后可用"@
}

/// The error an open request answers when the window could not load the
/// page; `detail` is the window's own error text.
pub fn navigation_failure(detail: &str) -> (r: String)
    ensures
        r@ == navigation_failure_message(detail@),
{
    let mut m = String::from_str("FAILED: 导航失败（");
    m.append(detail);
    m.append("）");
    m
}

/// The error an open request answers when the window was never created.
pub fn missing_window() -> (r: String)
    ensures
        r@ == missing_window_message(),
{
    String::from_str("NOT_FOUND: 外部网页窗口不存在（启动期预创建失败），重启 x-hub 后可用")
}

/// What extensions are shown of the window.
#[derive(Debug)]
pub struct WebWindowState {
    /// The window is visible (open).
    pub open: bool,
    /// The address last requested; empty when no site was opened yet.
    pub url: String,
}

/// The state of the window: `visible` as the window reports it, and the
/// remembered address (empty when the memory cannot be read).
pub fn state(visible: bool, memory: Option<&NavigationMemory>) -> (s: WebWindowState)
    ensures
        s.open == visible,
        empty_or_https(s.url@),
        memory matches Some(m) ==> s.url@ == m@,
        memory is None ==> s.url@.len() == 0,
        s.url@ == match remembered(memory) {
            Some(m) => m,
            None => Seq::<char>::empty(),
        },
{
    let url = match memory {
        Some(m) => m.requested_url(),
        None => String::new(),
    };
    WebWindowState { open: visible, url }
}

/// Opening an address again, without asking for a reload, does not navigate:
/// once `target` has been recorded, the same target needs no navigation,
/// any other target does, and a reload always does.
pub proof fn law_repeated_open_keeps_page(target: Seq<char>, other: Seq<char>)
    requires
        other != target,
    ensures
        !navigation_needed(Some(target), target, false),
        navigation_needed(Some(target), other, false),
        navigation_needed(Some(target), target, true),
{
}

/// A reload always navigates, whatever the memory holds; an address other
/// than the remembered one always navigates, reload or not; an unreadable
/// memory always navigates; only the remembered address without a reload
/// does not.
pub proof fn law_when_an_open_navigates(m: Option<Seq<char>>, t: Seq<char>, r: bool)
    ensures
        navigation_needed(m, t, true),
        m is None ==> navigation_needed(m, t, r),
        (m matches Some(x) && x != t) ==> navigation_needed(m, t, r),
        !navigation_needed(Some(t), t, false),
{
}

/// The state shows exactly the remembered address, in full: reading the
/// memory through a lock gives its whole contents, and an unreadable memory
/// gives nothing.
pub proof fn law_state_shows_the_whole_address(m: NavigationMemory)
    ensures
        remembered(Some(&m)) == Some(m@),
        remembered(None) == None::<Seq<char>>,
{
}

/// Addresses that differ only in surrounding white space are judged alike
/// (same verdict, same target).
pub proof fn law_surrounding_space_is_ignored(raw: Seq<char>)
    ensures
        admitted(trim(raw)) == admitted(raw),
{
    lemma_trim_idempotent(raw);
}

} // verus!
