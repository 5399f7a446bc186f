//! System tray: the StatusNotifierWatcher's registry of tray items and the
//! values that tray items report.
use vstd::prelude::*;
use crate::text::{chars_of, push_str, str_eq, string_of};

verus! {

/// Icon pixmap data of a tray item.
#[derive(Clone, Debug, PartialEq)]
pub struct Icon {
    pub width: i32,
    pub height: i32,
    pub bytes: Vec<u8>,
}

/// Tooltip of a tray item.
#[derive(Clone, Debug, PartialEq)]
pub struct Tooltip {
    pub icon_name: String,
    pub icon_pixmap: Vec<Icon>,
    pub title: String,
    pub description: String,
}

/// Properties of a menu entry.
#[derive(Clone, Debug, PartialEq)]
pub struct LayoutProps {
    pub label: Option<String>,
    pub enabled: Option<bool>,
    pub item_type: Option<String>,
    pub toggle_type: Option<String>,
    pub toggle_state: Option<i32>,
    pub shortcut: Option<Vec<Vec<String>>>,
}

/// A menu layout: the entry's id, its properties and the entries under it,
/// in order.
#[derive(Debug)]
pub struct Layout(pub i32, pub LayoutProps, pub Vec<Layout>);

/// Category of a tray item.
#[derive(Clone, Copy, Debug, PartialEq, Eq, Structural)]
pub enum Category {
    ApplicationStatus,
    Communications,
    SystemServices,
    Hardware,
}

/// The category a name stands for.
pub open spec fn category_named(s: Seq<char>) -> Option<Category> {
    if s == "ApplicationStatus"@ {
        Some(Category::ApplicationStatus)
    } else if s == "Communications"@ {
        Some(Category::Communications)
    } else if s == "SystemServices"@ {
        Some(Category::SystemServices)
    } else if s == "Hardware"@ {
        Some(Category::Hardware)
    } else {
        None
    }
}

impl Category {
    /// The category of a name, or `Unknown category: <name>`.
    pub fn try_from_str(value: &str) -> (r: Result<Category, String>)
        ensures
            match category_named(value@) {
                Some(c) => r == Ok::<Category, String>(c),
                None => r matches Err(e) && e@ == "Unknown category: "@ + value@,
            },
    {
        if str_eq(value, "ApplicationStatus") {
            Ok(Category::ApplicationStatus)
        } else if str_eq(value, "Communications") {
            Ok(Category::Communications)
        } else if str_eq(value, "SystemServices") {
            Ok(Category::SystemServices)
        } else if str_eq(value, "Hardware") {
            Ok(Category::Hardware)
        } else {
            Err(crate::wm::prefixed("Unknown category: ", value))
        }
    }
}

/// Status of a tray item.
#[derive(Clone, Copy, Debug, PartialEq, Eq, Structural)]
pub enum Status {
    Passive,
    Active,
    NeedsAttention,
}

/// The status a name stands for.
pub open spec fn status_named(s: Seq<char>) -> Option<Status> {
    if s == "Passive"@ {
        Some(Status::Passive)
    } else if s == "Active"@ {
        Some(Status::Active)
    } else if s == "NeedsAttention"@ {
        Some(Status::NeedsAttention)
    } else {
        None
    }
}

impl Status {
    /// The status of a name, or `Unknown status: <name>`.
    pub fn try_from_str(value: &str) -> (r: Result<Status, String>)
        ensures
            match status_named(value@) {
                Some(s) => r == Ok::<Status, String>(s),
                None => r matches Err(e) && e@ == "Unknown status: "@ + value@,
            },
    {
        if str_eq(value, "Passive") {
            Ok(Status::Passive)
        } else if str_eq(value, "Active") {
            Ok(Status::Active)
        } else if str_eq(value, "NeedsAttention") {
            Ok(Status::NeedsAttention)
        } else {
            Err(crate::wm::prefixed("Unknown status: ", value))
        }
    }
}

/// The service an item names: an object path is completed with the
/// sender's bus name; anything else is taken as it is.
pub open spec fn item_service(service: Seq<char>, sender: Seq<char>) -> Seq<char> {
    if service.len() > 0 && service[0] == '/' {
        sender + service
    } else {
        service
    }
}

/// The bus name part of a registered item: what comes before the first `/`.
pub open spec fn bus_name_part(item: Seq<char>) -> Seq<char> {
    match crate::text::find_from(item, "/"@, 0) {
        Some(i) => item.take(i),
        None => item,
    }
}

proof fn lemma_slash_found_at(s: Seq<char>, at: int, i: int)
    requires
        0 <= i <= at < s.len(),
        s[at] == '/',
        forall|k: int| 0 <= k < at ==> s[k] != '/',
    ensures
        crate::text::find_from(s, "/"@, i) == Some(at),
    decreases at - i,
{
    reveal_strlit("/");
    if i < at {
        assert(!crate::text::occurs_at(s, "/"@, i)) by {
            if crate::text::occurs_at(s, "/"@, i) {
                assert(s.subrange(i, i + 1)[0] == s[i]);
            }
        }
        lemma_slash_found_at(s, at, i + 1);
    } else {
        assert(s.subrange(i, i + 1) =~= "/"@);
    }
}

/// An item registered by its object path is owned by the bus name that
/// registered it: the bus name part of the completed service is the
/// sender's name (which holds no `/`).
pub proof fn law_item_owner_recovered(path: Seq<char>, sender: Seq<char>)
    requires
        path.len() > 0,
        path[0] == '/',
        forall|k: int| 0 <= k < sender.len() ==> sender[k] != '/',
    ensures
        bus_name_part(item_service(path, sender)) == sender,
{
    let s = sender + path;
    assert(s[sender.len() as int] == '/');
    lemma_slash_found_at(s, sender.len() as int, 0);
    assert(s.take(sender.len() as int) =~= sender);
}

/// The services of the registered items, in order.
pub open spec fn services_of(items: Seq<(String, String)>) -> Seq<Seq<char>> {
    items.map_values(|p: (String, String)| p.1@)
}

/// The first registered item of an owner.
pub open spec fn first_of_owner(items: Seq<(String, String)>, owner: Seq<char>) -> Option<int> {
    if exists|i: int| 0 <= i < items.len() && items[i].0@ == owner {
        Some(choose|i: int| 0 <= i < items.len() && items[i].0@ == owner && forall|j: int| 0 <= j < i ==> items[j].0@ != owner)
    } else {
        None
    }
}

/// The StatusNotifierWatcher's registry: for each item, the bus name that
/// owns it and the service it was registered under. A service is registered
/// at most once.
pub struct StatusNotifierWatcher {
    items: Vec<(String, String)>,
}

/// Whether some item is registered under a service.
fn has_service(items: &Vec<(String, String)>, service: &str) -> (b: bool)
    ensures
        b == services_of(items@).contains(service@),
{
    let mut i: usize = 0;
    while i < items.len()
        invariant
            i <= items@.len(),
            forall|j: int| 0 <= j < i ==> (#[trigger] items@[j]).1@ != service@,
        decreases items.len() - i,
    {
        if str_eq(items[i].1.as_str(), service) {
            assert(services_of(items@)[i as int] == service@);
            return true;
        }
        i = i + 1;
    }
    proof {
        if services_of(items@).contains(service@) {
            let k = choose|k: int| 0 <= k < services_of(items@).len() && services_of(items@)[k] == service@;
            assert(items@[k].1@ == service@);
        }
    }
    false
}

impl StatusNotifierWatcher {
    #[verifier::type_invariant]
    closed spec fn well_formed(&self) -> bool {
        forall|i: int, j: int| 0 <= i < j < self.items@.len() ==> (#[trigger] self.items@[i]).1@ != (#[trigger] self.items@[j]).1@
    }

    /// The registered items: owner and service.
    pub closed spec fn items(&self) -> Seq<(String, String)> {
        self.items@
    }

    /// A registry with no item.
    pub fn new() -> (w: Self)
        ensures
            w.items().len() == 0,
    {
        StatusNotifierWatcher { items: Vec::new() }
    }

    /// The bus name part of an item.
    pub fn service_bus_name(item: &str) -> (r: String)
        ensures
            r@ == bus_name_part(item@),
    {
        let c = chars_of(item);
        let slash = chars_of("/");
        match crate::text::find_text(c.as_slice(), slash.as_slice()) {
            Some(i) => {
                let mut out: Vec<char> = Vec::new();
                let mut k: usize = 0;
                while k < i
                    invariant
                        k <= i <= c@.len(),
                        out@ == c@.take(k as int),
                    decreases i - k,
                {
                    out.push(c[k]);
                    assert(c@.take(k + 1) =~= c@.take(k as int).push(c@[k as int]));
                    k = k + 1;
                }
                string_of(out.as_slice())
            },
            None => item.to_string(),
        }
    }

    /// `RegisterStatusNotifierItem` from `sender`: the item is recorded
    /// under its service unless that service is registered already. Returns
    /// the service registered (the watcher then announces it), or `None`.
    pub fn register_status_notifier_item(&mut self, service: &str, sender: &str) -> (r: Option<String>)
        ensures
            ({
                let s = item_service(service@, sender@);
                &&& services_of(old(self).items()).contains(s) ==> r is None && final(self).items() == old(self).items()
                &&& !services_of(old(self).items()).contains(s) ==> (r matches Some(x) && x@ == s)
                    && final(self).items().len() == old(self).items().len() + 1
                    && final(self).items().drop_last() == old(self).items()
                    && final(self).items().last().0@ == sender@
                    && final(self).items().last().1@ == s
            }),
    {
        proof {
            use_type_invariant(&*self);
        }
        let ghost s = item_service(service@, sender@);
        let svc_chars = chars_of(service);
        let full: String = if svc_chars.len() > 0 && svc_chars[0] == '/' {
            let mut out = chars_of(sender);
            push_str(service, &mut out);
            string_of(out.as_slice())
        } else {
            service.to_string()
        };
        assert(full@ == s);
        if has_service(&self.items, full.as_str()) {
            return None;
        }
        let ghost before = self.items@;
        let entry = (sender.to_string(), full.clone());
        let mut items: Vec<(String, String)> = Vec::new();
        std::mem::swap(&mut items, &mut self.items);
        items.push(entry);
        proof {
            assert forall|a: int, b: int| 0 <= a < b < items@.len() implies (#[trigger] items@[a]).1@ != (#[trigger] items@[b]).1@ by {
                if b < before.len() {
                    assert(items@[a] == before[a] && items@[b] == before[b]);
                } else {
                    assert(items@[a] == before[a]);
                    assert(services_of(before)[a] == before[a].1@);
                    if before[a].1@ == full@ {
                        assert(services_of(before).contains(full@));
                    }
                }
            }
        }
        self.items = items;
        Some(full)
    }

    /// `RegisteredStatusNotifierItems`: the services, in order.
    pub fn registered_status_notifier_items(&self) -> (r: Vec<String>)
        ensures
            r@.map_values(|x: String| x@) == services_of(self.items()),
    {
        let mut out: Vec<String> = Vec::new();
        let mut i: usize = 0;
        while i < self.items.len()
            invariant
                i <= self.items@.len(),
                out@.map_values(|x: String| x@) == services_of(self.items@.take(i as int)),
            decreases self.items.len() - i,
        {
            out.push(self.items[i].1.clone());
            assert(services_of(self.items@.take(i + 1)) =~= services_of(self.items@.take(i as int)).push(self.items@[i as int].1@));
            assert(out@.map_values(|x: String| x@) =~= services_of(self.items@.take(i + 1)));
            i = i + 1;
        }
        assert(self.items@.take(self.items@.len() as int) =~= self.items@);
        out
    }

    /// `IsStatusNotifierHostRegistered`: always.
    pub fn is_status_notifier_host_registered(&self) -> (b: bool)
        ensures
            b,
    {
        true
    }

    /// `ProtocolVersion`: 0.
    pub fn protocol_version(&self) -> (v: i32)
        ensures
            v == 0,
    {
        0
    }

    /// A bus name went away: the first item it owned is removed and its
    /// service returned (the watcher then announces it unregistered).
    pub fn owner_vanished(&mut self, owner: &str) -> (r: Option<String>)
        ensures
            match first_of_owner(old(self).items(), owner@) {
                Some(k) => (r matches Some(x) && x@ == old(self).items()[k].1@) && final(self).items() == old(self).items().remove(k),
                None => r is None && final(self).items() == old(self).items(),
            },
    {
        proof {
            use_type_invariant(&*self);
        }
        let mut i: usize = 0;
        while i < self.items.len()
            invariant
                i <= self.items@.len(),
                forall|j: int| 0 <= j < i ==> (#[trigger] self.items@[j]).0@ != owner@,
                forall|a: int, b: int| 0 <= a < b < self.items@.len() ==> (#[trigger] self.items@[a]).1@ != (#[trigger] self.items@[b]).1@,
                self.items@ == old(self).items@,
            decreases self.items.len() - i,
        {
            if str_eq(self.items[i].0.as_str(), owner) {
                let ghost before = self.items@;
                proof {
                    assert(before[i as int].0@ == owner@);
                    assert(exists|j: int| 0 <= j < before.len() && before[j].0@ == owner@);
                    let k = first_of_owner(before, owner@).unwrap();
                    assert(0 <= k < before.len() && before[k].0@ == owner@ && forall|j: int| 0 <= j < k ==> before[j].0@ != owner@);
                    if k < i {
                        assert(before[k].0@ != owner@);
                    }
                    if k > i {
                        assert(before[i as int].0@ != owner@);
                    }
                    assert(k == i);
                }
                let mut items: Vec<(String, String)> = Vec::new();
                std::mem::swap(&mut items, &mut self.items);
                let removed = items.remove(i);
                proof {
                    assert forall|a: int, b: int| 0 <= a < b < items@.len() implies (#[trigger] items@[a]).1@ != (#[trigger] items@[b]).1@ by {
                        let a0 = if a < i { a } else { a + 1 };
                        let b0 = if b < i { b } else { b + 1 };
                        assert(items@[a] == before[a0]);
                        assert(items@[b] == before[b0]);
                    }
                }
                self.items = items;
                return Some(removed.1);
            }
            i = i + 1;
        }
        proof {
            if exists|i: int| 0 <= i < self.items@.len() && self.items@[i].0@ == owner@ {
                let k = choose|i: int| 0 <= i < self.items@.len() && self.items@[i].0@ == owner@;
                assert(self.items@[k].0@ != owner@);
            }
        }
        None
    }
}

/// Whether the watcher holds its well-known bus name after a change of its
/// owner: it does when the new owner is this connection, it no longer does
/// when another took it.
pub fn bus_name_held(had: bool, new_owner_is_self: bool) -> (b: bool)
    ensures
        b == new_owner_is_self,
{
    if new_owner_is_self {
        true
    } else if had {
        false
    } else {
        had
    }
}

} // verus!
