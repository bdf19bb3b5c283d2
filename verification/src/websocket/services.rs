//! The services that a server offers, with unique names and unique IDs.

use vstd::prelude::*;

use crate::error::FoxgloveError;
use crate::ids::ServiceId;
use crate::websocket::parameters::lemma_push_contains;
use crate::websocket::protocol::{copy_bytes, views, MessageSchema, Service, ServiceSchema};

verus! {

/// Two message schemas are the same.
pub open spec fn same_message_schema(a: MessageSchema, b: MessageSchema) -> bool {
    &&& a.encoding@ == b.encoding@
    &&& a.schema_name@ == b.schema_name@
    &&& a.schema_encoding@ == b.schema_encoding@
    &&& a.schema_data@ == b.schema_data@
}

/// Two optional message schemas are the same.
pub open spec fn same_optional_schema(a: Option<MessageSchema>, b: Option<MessageSchema>) -> bool {
    match (a, b) {
        (Some(x), Some(y)) => same_message_schema(x, y),
        (None, None) => true,
        _ => false,
    }
}

/// Two services are the same.
pub open spec fn same_service(a: Service, b: Service) -> bool {
    &&& a.id == b.id
    &&& a.name@ == b.name@
    &&& a.schema.name@ == b.schema.name@
    &&& same_optional_schema(a.schema.request, b.schema.request)
    &&& same_optional_schema(a.schema.response, b.schema.response)
}

fn copy_message_schema(s: &MessageSchema) -> (r: MessageSchema)
    ensures
        same_message_schema(*s, r),
{
    MessageSchema {
        encoding: s.encoding.clone(),
        schema_name: s.schema_name.clone(),
        schema_encoding: s.schema_encoding.clone(),
        schema_data: copy_bytes(&s.schema_data),
    }
}

fn copy_optional_schema(s: &Option<MessageSchema>) -> (r: Option<MessageSchema>)
    ensures
        same_optional_schema(*s, r),
{
    match s {
        Some(x) => Some(copy_message_schema(x)),
        None => None,
    }
}

/// Returns a copy of a service.
pub fn copy_service(s: &Service) -> (r: Service)
    ensures
        same_service(*s, r),
{
    Service {
        id: s.id,
        name: s.name.clone(),
        schema: ServiceSchema {
            name: s.schema.name.clone(),
            request: copy_optional_schema(&s.schema.request),
            response: copy_optional_schema(&s.schema.response),
        },
    }
}

/// The names of the services.
pub open spec fn service_names(services: Seq<Service>) -> Seq<Seq<char>> {
    services.map_values(|s: Service| s.name@)
}

/// The IDs of the services.
pub open spec fn service_ids(services: Seq<Service>) -> Seq<ServiceId> {
    services.map_values(|s: Service| s.id)
}

/// Why the services at position `i` of `new` cannot be added, judged on their own: a name
/// that occurs earlier among them, or no request encoding where the server has none either.
pub open spec fn invalid_at(new: Seq<Service>, encodings_empty: bool, i: int) -> Option<FoxgloveError> {
    if service_names(new.take(i)).contains(new[i].name@) {
        Some(FoxgloveError::DuplicateService(new[i].name))
    } else if new[i].spec_request_encoding() is None && encodings_empty {
        Some(FoxgloveError::MissingRequestEncoding(new[i].name))
    } else {
        None
    }
}

/// The first reason, among the first `k` new services, why they cannot be added on their own.
pub open spec fn first_invalid(new: Seq<Service>, encodings_empty: bool, k: int) -> Option<FoxgloveError>
    decreases k,
{
    if k <= 0 {
        None
    } else {
        match first_invalid(new, encodings_empty, k - 1) {
            Some(e) => Some(e),
            None => invalid_at(new, encodings_empty, k - 1),
        }
    }
}

/// The first of the first `k` new services whose name or ID is already registered.
pub open spec fn first_conflict(registered: Seq<Service>, new: Seq<Service>, k: int) -> Option<FoxgloveError>
    decreases k,
{
    if k <= 0 {
        None
    } else {
        match first_conflict(registered, new, k - 1) {
            Some(e) => Some(e),
            None => if service_names(registered).contains(new[k - 1].name@) || service_ids(registered).contains(new[k - 1].id) {
                Some(FoxgloveError::DuplicateService(new[k - 1].name))
            } else {
                None
            },
        }
    }
}

/// The error with which adding `new` to `registered` fails, if it fails.
pub open spec fn add_services_error(registered: Seq<Service>, capable: bool, encodings_empty: bool, new: Seq<Service>) -> Option<FoxgloveError> {
    if !capable {
        Some(FoxgloveError::ServicesNotSupported)
    } else if new.len() == 0 {
        None
    } else {
        match first_invalid(new, encodings_empty, new.len() as int) {
            Some(e) => Some(e),
            None => first_conflict(registered, new, new.len() as int),
        }
    }
}

/// The registered services.
pub struct ServiceMap {
    services: Vec<Service>,
}

impl ServiceMap {
    /// The registered services, in the order in which they were added.
    pub closed spec fn registered(self) -> Seq<Service> {
        self.services@
    }

    /// No two registered services share a name or an ID.
    pub open spec fn wf(self) -> bool {
        &&& service_names(self.registered()).no_duplicates()
        &&& service_ids(self.registered()).no_duplicates()
    }

    /// Creates an empty map.
    pub fn new() -> (m: ServiceMap)
        ensures
            m.registered().len() == 0,
            m.wf(),
    {
        let m = ServiceMap { services: Vec::new() };
        assert(service_names(m.registered()) =~= Seq::empty());
        assert(m.registered().map_values(|s: Service| s.id) =~= Seq::empty());
        m
    }

    /// Creates a map that holds the services, which share no name and no ID.
    pub fn from_services(services: Vec<Service>) -> (m: ServiceMap)
        requires
            service_names(services@).no_duplicates(),
            service_ids(services@).no_duplicates(),
        ensures
            m.wf(),
            m.registered() == services@,
    {
        ServiceMap { services }
    }

    /// Returns whether a service with this name is registered.
    pub fn contains_name(&self, name: &String) -> (r: bool)
        ensures
            r == service_names(self.registered()).contains(name@),
    {
        let mut i: usize = 0;
        while i < self.services.len()
            invariant
                i <= self.services@.len(),
                forall|k: int| 0 <= k < i ==> #[trigger] self.services@[k].name@ != name@,
            decreases self.services@.len() - i,
        {
            if self.services[i].name == *name {
                assert(service_names(self.registered())[i as int] == name@);
                return true;
            }
            i = i + 1;
        }
        proof {
            if service_names(self.registered()).contains(name@) {
                let k = choose|k: int| 0 <= k < service_names(self.registered()).len() && service_names(self.registered())[k] == name@;
                assert(self.services@[k].name@ == name@);
            }
        }
        false
    }

    /// Returns whether a service with this ID is registered.
    pub fn contains_id(&self, id: ServiceId) -> (r: bool)
        ensures
            r == service_ids(self.registered()).contains(id),
    {
        let mut i: usize = 0;
        while i < self.services.len()
            invariant
                i <= self.services@.len(),
                forall|k: int| 0 <= k < i ==> #[trigger] self.services@[k].id != id,
            decreases self.services@.len() - i,
        {
            if self.services[i].id == id {
                assert(service_ids(self.registered())[i as int] == id);
                return true;
            }
            i = i + 1;
        }
        proof {
            if service_ids(self.registered()).contains(id) {
                let k = choose|k: int| 0 <= k < self.services@.len() && service_ids(self.registered())[k] == id;
                assert(self.services@[k].id == id);
            }
        }
        false
    }

    /// Returns a copy of the service with this ID, if one is registered.
    pub fn get_by_id(&self, id: ServiceId) -> (r: Option<Service>)
        ensures
            r matches Some(s) ==> exists|k: int| 0 <= k < self.registered().len() && self.registered()[k].id == id
                && same_service(self.registered()[k], s),
            r is None ==> !service_ids(self.registered()).contains(id),
    {
        let mut i: usize = 0;
        while i < self.services.len()
            invariant
                i <= self.services@.len(),
                forall|k: int| 0 <= k < i ==> #[trigger] self.services@[k].id != id,
            decreases self.services@.len() - i,
        {
            if self.services[i].id == id {
                assert(self.registered()[i as int].id == id);
                return Some(copy_service(&self.services[i]));
            }
            i = i + 1;
        }
        proof {
            if service_ids(self.registered()).contains(id) {
                let k = choose|k: int| 0 <= k < self.services@.len() && service_ids(self.registered())[k] == id;
                assert(self.services@[k].id == id);
            }
        }
        None
    }

    /// Returns copies of the registered services.
    pub fn all(&self) -> (r: Vec<Service>)
        ensures
            r@.len() == self.registered().len(),
            forall|k: int| 0 <= k < r@.len() ==> #[trigger] same_service(self.registered()[k], r@[k]),
    {
        let mut r: Vec<Service> = Vec::new();
        let mut i: usize = 0;
        while i < self.services.len()
            invariant
                i <= self.services@.len(),
                r@.len() == i,
                forall|k: int| 0 <= k < i ==> #[trigger] same_service(self.registered()[k], r@[k]),
            decreases self.services@.len() - i,
        {
            r.push(copy_service(&self.services[i]));
            i = i + 1;
        }
        r
    }

    /// Finds the first reason why the new services cannot be added on their own.
    fn check_new(new: &Vec<Service>, encodings_empty: bool) -> (r: Option<FoxgloveError>)
        ensures
            r == first_invalid(new@, encodings_empty, new@.len() as int),
    {
        let mut i: usize = 0;
        let mut seen: Vec<String> = Vec::new();
        while i < new.len()
            invariant
                i <= new@.len(),
                views(seen@) == service_names(new@.take(i as int)),
                first_invalid(new@, encodings_empty, i as int) is None,
            decreases new@.len() - i,
        {
            let name = &new[i].name;
            let dup = contains_string(&seen, name);
            proof {
                assert(invalid_at(new@, encodings_empty, i as int) == first_invalid(new@, encodings_empty, i + 1));
            }
            if dup {
                proof {
                    lemma_first_invalid_stable(new@, encodings_empty, i + 1, new@.len() as int);
                }
                return Some(FoxgloveError::DuplicateService(name.clone()));
            }
            if new[i].request_encoding().is_none() && encodings_empty {
                proof {
                    lemma_first_invalid_stable(new@, encodings_empty, i + 1, new@.len() as int);
                }
                return Some(FoxgloveError::MissingRequestEncoding(name.clone()));
            }
            let ghost before = seen@;
            seen.push(name.clone());
            assert(new@.take(i + 1) =~= new@.take(i as int).push(new@[i as int]));
            assert(service_names(new@.take(i + 1)) =~= service_names(new@.take(i as int)).push(name@));
            assert(views(seen@) =~= views(before).push(name@));
            i = i + 1;
        }
        None
    }

    /// Finds the first new service whose name or ID is already registered.
    fn check_conflicts(&self, new: &Vec<Service>) -> (r: Option<FoxgloveError>)
        ensures
            r == first_conflict(self.registered(), new@, new@.len() as int),
    {
        let mut i: usize = 0;
        while i < new.len()
            invariant
                i <= new@.len(),
                first_conflict(self.registered(), new@, i as int) is None,
            decreases new@.len() - i,
        {
            if self.contains_name(&new[i].name) || self.contains_id(new[i].id) {
                proof {
                    lemma_first_conflict_stable(self.registered(), new@, i + 1, new@.len() as int);
                }
                return Some(FoxgloveError::DuplicateService(new[i].name.clone()));
            }
            i = i + 1;
        }
        None
    }

    /// Registers the new services, unless the server does not support services, two of them
    /// share a name, one of them declares no request encoding while the server supports none,
    /// or one of them shares its name or ID with a registered service. Checks happen in that
    /// order, service by service; on error nothing is registered.
    pub fn add_services(&mut self, capable: bool, encodings_empty: bool, new: Vec<Service>) -> (r: Result<(), FoxgloveError>)
        requires
            old(self).wf(),
            forall|a: int, b: int| 0 <= a < b < new@.len() ==> new@[a].id != new@[b].id,
        ensures
            final(self).wf(),
            r matches Err(e) ==> add_services_error(old(self).registered(), capable, encodings_empty, new@)
                == Some(e) && final(self).registered() == old(self).registered(),
            r is Ok ==> add_services_error(old(self).registered(), capable, encodings_empty, new@) is None
                && final(self).registered() == old(self).registered() + new@,
    {
        if !capable {
            return Err(FoxgloveError::ServicesNotSupported);
        }
        if new.len() == 0 {
            assert(old(self).registered() + new@ =~= old(self).registered());
            return Ok(());
        }
        if let Some(e) = Self::check_new(&new, encodings_empty) {
            return Err(e);
        }
        if let Some(e) = self.check_conflicts(&new) {
            return Err(e);
        }
        let ghost start = self.services@;
        let ghost added = new@;
        proof {
            lemma_concat_unique(start, added, encodings_empty, added.len() as int);
            assert(added.take(added.len() as int) =~= added);
        }
        let mut new = new;
        self.services.append(&mut new);
        assert(self.services@ == start + added);
        Ok(())
    }

    /// Removes the services with the given names, and returns the IDs of those removed.
    /// Unknown names are ignored.
    pub fn remove_services(&mut self, names: &Vec<String>) -> (removed: Vec<ServiceId>)
        requires
            old(self).wf(),
        ensures
            final(self).wf(),
            forall|s: Service| #[trigger] final(self).registered().contains(s) <==> old(self).registered().contains(s)
                && !views(names@).contains(s.name@),
            forall|id: ServiceId| #[trigger] removed@.contains(id) <==> exists|k: int| 0 <= k < old(self).registered().len()
                && old(self).registered()[k].id == id && views(names@).contains(old(self).registered()[k].name@),
            removed@.no_duplicates(),
    {
        let ghost start = self.services@;
        let mut removed: Vec<ServiceId> = Vec::new();
        let mut kept: Vec<Service> = Vec::new();
        let mut rest: Vec<Service> = Vec::new();
        let total = self.services.len();
        std::mem::swap(&mut rest, &mut self.services);
        let mut i: usize = 0;
        while rest.len() > 0
            invariant
                i <= start.len(),
                start.len() == total,
                rest@ == start.skip(i as int),
                service_names(start).no_duplicates(),
                service_ids(start).no_duplicates(),
                forall|s: Service| #[trigger] kept@.contains(s) <==> start.take(i as int).contains(s) && !views(names@).contains(s.name@),
                kept@.len() <= i,
                forall|k: int| 0 <= k < kept@.len() ==> exists|j: int| 0 <= j < i && #[trigger] kept@[k] == start[j],
                service_names(kept@).no_duplicates(),
                service_ids(kept@).no_duplicates(),
                forall|id: ServiceId| #[trigger] removed@.contains(id) <==> exists|k: int| 0 <= k < i && start[k].id == id
                    && views(names@).contains(start[k].name@),
                removed@.no_duplicates(),
            decreases rest@.len(),
        {
            assert(i < start.len());
            let s = rest.remove(0);
            assert(s == start[i as int]);
            assert(rest@ =~= start.skip(i + 1));
            let named = contains_string(names, &s.name);
            proof {
                lemma_take_push(start, i as int);
                lemma_push_contains(start.take(i as int), start[i as int]);
            }
            if named {
                let ghost before = removed@;
                proof {
                    assert(!before.contains(s.id)) by {
                        if before.contains(s.id) {
                            let k = choose|k: int| 0 <= k < i && start[k].id == s.id && views(names@).contains(start[k].name@);
                            assert(service_ids(start)[k] == service_ids(start)[i as int]);
                        }
                    }
                }
                removed.push(s.id);
                proof {
                    lemma_push_contains(before, start[i as int].id);
                    lemma_push_no_duplicates(before, start[i as int].id);
                }
            } else {
                let ghost before = kept@;
                kept.push(s);
                proof {
                    lemma_push_contains(before, start[i as int]);
                    assert(service_names(kept@) =~= service_names(before).push(start[i as int].name@));
                    assert(service_ids(kept@) =~= service_ids(before).push(start[i as int].id));
                    assert(!service_names(before).contains(start[i as int].name@)) by {
                        if service_names(before).contains(start[i as int].name@) {
                            let k = choose|k: int| 0 <= k < service_names(before).len() && service_names(before)[k] == start[i as int].name@;
                            let j = choose|j: int| 0 <= j < i && #[trigger] before[k] == start[j];
                            assert(service_names(start)[j] == service_names(start)[i as int]);
                        }
                    }
                    assert(!service_ids(before).contains(start[i as int].id)) by {
                        if service_ids(before).contains(start[i as int].id) {
                            let k = choose|k: int| 0 <= k < service_ids(before).len() && service_ids(before)[k] == start[i as int].id;
                            let j = choose|j: int| 0 <= j < i && #[trigger] before[k] == start[j];
                            assert(service_ids(start)[j] == service_ids(start)[i as int]);
                        }
                    }
                    lemma_push_no_duplicates(service_names(before), start[i as int].name@);
                    lemma_push_no_duplicates(service_ids(before), start[i as int].id);
                    assert forall|k: int| 0 <= k < kept@.len() implies exists|j: int| 0 <= j < i + 1 && #[trigger] kept@[k] == start[j] by {
                        if k < before.len() {
                            let j = choose|j: int| 0 <= j < i && #[trigger] before[k] == start[j];
                            assert(kept@[k] == start[j]);
                        } else {
                            assert(kept@[k] == start[i as int]);
                        }
                    }
                }
            }
            proof {
                assert forall|id: ServiceId| #[trigger] removed@.contains(id) <==> exists|k: int| 0 <= k < i + 1 && start[k].id == id
                    && views(names@).contains(start[k].name@) by {
                    if exists|k: int| 0 <= k < i + 1 && start[k].id == id && views(names@).contains(start[k].name@) {
                        let k = choose|k: int| 0 <= k < i + 1 && start[k].id == id && views(names@).contains(start[k].name@);
                        if k < i {
                            assert(exists|k: int| 0 <= k < i && start[k].id == id && views(names@).contains(start[k].name@));
                        }
                    }
                    if exists|k: int| 0 <= k < i && start[k].id == id && views(names@).contains(start[k].name@) {
                        let k = choose|k: int| 0 <= k < i && start[k].id == id && views(names@).contains(start[k].name@);
                        assert(exists|k: int| 0 <= k < i + 1 && start[k].id == id && views(names@).contains(start[k].name@));
                    }
                }
            }
            i = i + 1;
        }
        assert(i == start.len());
        self.services = kept;
        proof {
            assert(start.take(start.len() as int) =~= start);
            assert forall|s: Service| #[trigger] self.registered().contains(s) <==> start.contains(s) && !views(names@).contains(s.name@) by {
            }
        }
        removed
    }
}

/// Registered services followed by the first `k` new services have unique names and IDs, when
/// no new service is invalid on its own and none conflicts with a registered one.
proof fn lemma_concat_unique(start: Seq<Service>, new: Seq<Service>, encodings_empty: bool, k: int)
    requires
        0 <= k <= new.len(),
        service_names(start).no_duplicates(),
        service_ids(start).no_duplicates(),
        first_invalid(new, encodings_empty, new.len() as int) is None,
        first_conflict(start, new, new.len() as int) is None,
        forall|a: int, b: int| 0 <= a < b < new.len() ==> new[a].id != new[b].id,
    ensures
        service_names(start + new.take(k)).no_duplicates(),
        service_ids(start + new.take(k)).no_duplicates(),
    decreases k,
{
    if k == 0 {
        assert(start + new.take(0) =~= start);
    } else {
        let i = k - 1;
        lemma_concat_unique(start, new, encodings_empty, i);
        lemma_first_none_at(new, encodings_empty, new.len() as int, i);
        lemma_no_conflict_at(start, new, new.len() as int, i);
        let before = start + new.take(i);
        assert(start + new.take(k) =~= before.push(new[i]));
        let names_before = service_names(before);
        let ids_before = service_ids(before);
        assert(service_names(before.push(new[i])) =~= names_before.push(new[i].name@));
        assert(service_ids(before.push(new[i])) =~= ids_before.push(new[i].id));
        assert(!names_before.contains(new[i].name@)) by {
            if names_before.contains(new[i].name@) {
                let j = choose|j: int| 0 <= j < names_before.len() && names_before[j] == new[i].name@;
                if j < start.len() {
                    assert(service_names(start)[j] == new[i].name@);
                } else {
                    assert(service_names(new.take(i))[j - start.len()] == new[i].name@);
                }
            }
        }
        assert(!ids_before.contains(new[i].id)) by {
            if ids_before.contains(new[i].id) {
                let j = choose|j: int| 0 <= j < ids_before.len() && ids_before[j] == new[i].id;
                if j < start.len() {
                    assert(service_ids(start)[j] == new[i].id);
                } else {
                    assert(new[j - start.len()].id == new[i].id);
                }
            }
        }
        lemma_push_no_duplicates(names_before, new[i].name@);
        lemma_push_no_duplicates(ids_before, new[i].id);
    }
}

/// Up to position `i`, no new service is invalid on its own if none of the first `k` is.
proof fn lemma_first_none_at(new: Seq<Service>, encodings_empty: bool, k: int, i: int)
    requires
        first_invalid(new, encodings_empty, k) is None,
        0 <= i < k,
    ensures
        invalid_at(new, encodings_empty, i) is None,
    decreases k,
{
    if i < k - 1 {
        lemma_first_none_at(new, encodings_empty, k - 1, i);
    }
}

/// No new service before position `k` conflicts with a registered one if none does.
proof fn lemma_no_conflict_at(registered: Seq<Service>, new: Seq<Service>, k: int, i: int)
    requires
        first_conflict(registered, new, k) is None,
        0 <= i < k,
    ensures
        !service_names(registered).contains(new[i].name@),
        !service_ids(registered).contains(new[i].id),
    decreases k,
{
    if i < k - 1 {
        lemma_no_conflict_at(registered, new, k - 1, i);
    }
}

/// Returns whether `s` occurs among the strings.
pub fn contains_string(v: &Vec<String>, s: &String) -> (r: bool)
    ensures
        r == views(v@).contains(s@),
{
    let mut j: usize = 0;
    while j < v.len()
        invariant
            j <= v@.len(),
            forall|k: int| 0 <= k < j ==> #[trigger] v@[k]@ != s@,
        decreases v@.len() - j,
    {
        if v[j] == *s {
            assert(views(v@)[j as int] == s@);
            return true;
        }
        j = j + 1;
    }
    proof {
        if views(v@).contains(s@) {
            let k = choose|k: int| 0 <= k < views(v@).len() && views(v@)[k] == s@;
            assert(v@[k]@ == s@);
        }
    }
    false
}

/// Once some new service is invalid, the first reason stays the same over longer prefixes.
proof fn lemma_first_invalid_stable(new: Seq<Service>, encodings_empty: bool, k: int, n: int)
    requires
        1 <= k <= n,
        first_invalid(new, encodings_empty, k) is Some,
    ensures
        first_invalid(new, encodings_empty, n) == first_invalid(new, encodings_empty, k),
    decreases n - k,
{
    if k < n {
        lemma_first_invalid_stable(new, encodings_empty, k, n - 1);
    }
}

/// Once some new service conflicts, the first conflict stays the same over longer prefixes.
proof fn lemma_first_conflict_stable(registered: Seq<Service>, new: Seq<Service>, k: int, n: int)
    requires
        1 <= k <= n,
        first_conflict(registered, new, k) is Some,
    ensures
        first_conflict(registered, new, n) == first_conflict(registered, new, k),
    decreases n - k,
{
    if k < n {
        lemma_first_conflict_stable(registered, new, k, n - 1);
    }
}

/// A prefix one longer is the shorter prefix and the next element.
proof fn lemma_take_push<A>(s: Seq<A>, i: int)
    requires
        0 <= i < s.len(),
    ensures
        s.take(i + 1) == s.take(i).push(s[i]),
{
    assert(s.take(i + 1) =~= s.take(i).push(s[i]));
}

/// Appending an element that does not occur keeps a sequence free of duplicates.
pub proof fn lemma_push_no_duplicates<A>(s: Seq<A>, x: A)
    requires
        s.no_duplicates(),
        !s.contains(x),
    ensures
        s.push(x).no_duplicates(),
{
    let r = s.push(x);
    assert forall|i: int, j: int| 0 <= i < r.len() && 0 <= j < r.len() && i != j implies r[i] != r[j] by {
        if i < s.len() && j < s.len() {
            assert(r[i] == s[i] && r[j] == s[j]);
        } else if i < s.len() {
            assert(s[i] == r[i]);
            assert(s.contains(r[i]));
        } else if j < s.len() {
            assert(s[j] == r[j]);
            assert(s.contains(r[j]));
        }
    }
}

/// The first of the first `k` reasons is a missing request encoding only for a service among
/// them that declares no request schema, while the server accepts no encoding.
proof fn lemma_first_invalid_missing(new: Seq<Service>, encodings_empty: bool, k: int)
    requires
        0 <= k <= new.len(),
    ensures
        first_invalid(new, encodings_empty, k) matches Some(FoxgloveError::MissingRequestEncoding(n)) ==> encodings_empty
            && exists|j: int| 0 <= j < k && new[j].name == n && new[j].schema.request is None,
    decreases k,
{
    if k > 0 {
        lemma_first_invalid_missing(new, encodings_empty, k - 1);
        if first_invalid(new, encodings_empty, k - 1) is None {
            assert(invalid_at(new, encodings_empty, k - 1) matches Some(FoxgloveError::MissingRequestEncoding(_))
                ==> new[k - 1].schema.request is None && encodings_empty);
        }
    }
}

/// A conflict with the registered services is only ever a duplicate.
proof fn lemma_first_conflict_duplicate(registered: Seq<Service>, new: Seq<Service>, k: int)
    ensures
        first_conflict(registered, new, k) matches Some(e) ==> e is DuplicateService,
    decreases k,
{
    if k > 0 {
        lemma_first_conflict_duplicate(registered, new, k - 1);
    }
}

/// Once one of the new services is invalid, the services are refused for it or an earlier
/// reason.
proof fn lemma_invalid_refuses(new: Seq<Service>, encodings_empty: bool, j: int, k: int)
    requires
        0 <= j < k <= new.len(),
        invalid_at(new, encodings_empty, j) is Some,
    ensures
        first_invalid(new, encodings_empty, k) is Some,
    decreases k,
{
    if k > j + 1 {
        lemma_invalid_refuses(new, encodings_empty, j, k - 1);
    }
}

/// Adding services fails for a missing request encoding only where the server accepts no
/// encoding and one of the new services, with that name, declares no request schema; it never
/// fails so when every new service declares one; and a capable server never accepts a service
/// without a request schema while it accepts no encoding.
pub proof fn missing_request_encoding_only_without_request_schema(
    registered: Seq<Service>,
    capable: bool,
    encodings_empty: bool,
    new: Seq<Service>,
)
    ensures
        add_services_error(registered, capable, encodings_empty, new) matches Some(
            FoxgloveError::MissingRequestEncoding(n),
        ) ==> encodings_empty && exists|j: int| 0 <= j < new.len() && new[j].name == n && new[j].schema.request is None,
        (forall|j: int| 0 <= j < new.len() ==> (#[trigger] new[j]).schema.request is Some) ==> !(add_services_error(
            registered,
            capable,
            encodings_empty,
            new,
        ) matches Some(FoxgloveError::MissingRequestEncoding(_))),
        capable && encodings_empty && (exists|j: int| 0 <= j < new.len() && (#[trigger] new[j]).schema.request is None)
            ==> add_services_error(registered, capable, encodings_empty, new) is Some,
{
    let n = new.len() as int;
    lemma_first_invalid_missing(new, encodings_empty, n);
    lemma_first_conflict_duplicate(registered, new, n);
    if capable && encodings_empty && (exists|j: int| 0 <= j < new.len() && (#[trigger] new[j]).schema.request is None) {
        let j = choose|j: int| 0 <= j < new.len() && (#[trigger] new[j]).schema.request is None;
        assert(invalid_at(new, encodings_empty, j) is Some);
        lemma_invalid_refuses(new, encodings_empty, j, n);
    }
}

} // verus!
