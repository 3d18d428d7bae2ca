//! Groups of services: filters and wrappers added to a group apply to the
//! services added after them, and a group added to another takes on that
//! group's filters and wrappers. A service added to a group also takes on
//! the group's shared values, which win over its own of the same type. A registry collects the services a server
//! asks, in order.
use crate::services::{attach, clone_state, empty_state, extend_state, insert_state, Service, ServiceView};
use std::sync::Arc;
use vstd::prelude::*;

verus! {

/// Services in the order added, the filters and wrappers that services added
/// from now on take on, background tasks, and the values shared with the
/// services added from now on (one per type).
pub struct ServiceGroup<F: ?Sized, W: ?Sized, H: ?Sized, T: ?Sized> {
    pub services: Vec<Service<F, W, H>>,
    pub shared_state: http::Extensions,
    pub filters: Vec<Arc<F>>,
    pub wrappers: Vec<Arc<W>>,
    pub tasks: Vec<Arc<T>>,
}

/// A group as values; the shared values have no model.
pub struct GroupView<F: ?Sized, W: ?Sized, H: ?Sized, T: ?Sized> {
    pub services: Seq<ServiceView<F, W, H>>,
    pub filters: Seq<Arc<F>>,
    pub wrappers: Seq<Arc<W>>,
    pub tasks: Seq<Arc<T>>,
}

/// The views of services.
pub open spec fn service_views<F: ?Sized, W: ?Sized, H: ?Sized>(services: Seq<Service<F, W, H>>) -> Seq<ServiceView<F, W, H>> {
    services.map_values(|s: Service<F, W, H>| s@)
}

impl<F: ?Sized, W: ?Sized, H: ?Sized, T: ?Sized> View for ServiceGroup<F, W, H, T> {
    type V = GroupView<F, W, H, T>;

    open spec fn view(&self) -> GroupView<F, W, H, T> {
        GroupView {
            services: service_views(self.services@),
            filters: self.filters@,
            wrappers: self.wrappers@,
            tasks: self.tasks@,
        }
    }
}

/// `g` with service `s` added: `s` takes on the group's filters and wrappers.
pub open spec fn with_service<F: ?Sized, W: ?Sized, H: ?Sized, T: ?Sized>(
    g: GroupView<F, W, H, T>,
    s: ServiceView<F, W, H>,
) -> GroupView<F, W, H, T> {
    GroupView { services: g.services.push(attach(s, g.filters, g.wrappers)), ..g }
}

/// `g` with filter `f` added, for the services added after it.
pub open spec fn with_filter<F: ?Sized, W: ?Sized, H: ?Sized, T: ?Sized>(g: GroupView<F, W, H, T>, f: Arc<F>) -> GroupView<F, W, H, T> {
    GroupView { filters: g.filters.push(f), ..g }
}

/// `g` with wrapper `w` added, for the services added after it.
pub open spec fn with_wrapper<F: ?Sized, W: ?Sized, H: ?Sized, T: ?Sized>(g: GroupView<F, W, H, T>, w: Arc<W>) -> GroupView<F, W, H, T> {
    GroupView { wrappers: g.wrappers.push(w), ..g }
}

/// Services that take on `filters` and `wrappers` after their own.
pub open spec fn attach_all<F: ?Sized, W: ?Sized, H: ?Sized>(
    services: Seq<ServiceView<F, W, H>>,
    filters: Seq<Arc<F>>,
    wrappers: Seq<Arc<W>>,
) -> Seq<ServiceView<F, W, H>> {
    services.map_values(|s: ServiceView<F, W, H>| attach(s, filters, wrappers))
}

/// `g` with the services and tasks of `sub` added after its own; each of
/// those services takes on `g`'s filters and wrappers.
pub open spec fn with_sub_group<F: ?Sized, W: ?Sized, H: ?Sized, T: ?Sized>(
    g: GroupView<F, W, H, T>,
    sub: GroupView<F, W, H, T>,
) -> GroupView<F, W, H, T> {
    GroupView {
        services: g.services + attach_all(sub.services, g.filters, g.wrappers),
        tasks: g.tasks + sub.tasks,
        ..g
    }
}

impl<F: ?Sized, W: ?Sized, H: ?Sized, T: ?Sized> ServiceGroup<F, W, H, T> {
    /// An empty group.
    pub fn new() -> (group: Self)
        ensures
            group@.services.len() == 0,
            group@.filters.len() == 0,
            group@.wrappers.len() == 0,
            group@.tasks.len() == 0,
    {
        ServiceGroup {
            services: Vec::new(),
            shared_state: empty_state(),
            filters: Vec::new(),
            wrappers: Vec::new(),
            tasks: Vec::new(),
        }
    }

    /// Adds a service, which takes on the group's filters and wrappers.
    pub fn service(self, service: Service<F, W, H>) -> (group: Self)
        ensures
            group@ == with_service(self@, service@),
    {
        let mut g = self;
        let mut attached = service.attach(&g.filters, &g.wrappers);
        extend_state(&mut attached.shared_state, clone_state(&g.shared_state));
        let ghost before = g.services@;
        g.services.push(attached);
        assert(service_views(g.services@) =~= service_views(before).push(attached@));
        g
    }

    /// Shares `value` with the services added from now on, in place of a
    /// shared value of the same type.
    pub fn shared_state<X: Send + Sync + 'static>(self, value: X) -> (group: Self)
        ensures
            group@ == self@,
    {
        let mut g = self;
        insert_state(&mut g.shared_state, Arc::new(value));
        g
    }

    /// Adds a filter for the services added from now on.
    pub fn filter(self, filter: Arc<F>) -> (group: Self)
        ensures
            group@ == with_filter(self@, filter),
    {
        let mut g = self;
        g.filters.push(filter);
        g
    }

    /// Adds a wrapper for the services added from now on.
    pub fn wrap(self, wrapper: Arc<W>) -> (group: Self)
        ensures
            group@ == with_wrapper(self@, wrapper),
    {
        let mut g = self;
        g.wrappers.push(wrapper);
        g
    }

    /// Adds a background task.
    pub fn task(self, task: Arc<T>) -> (group: Self)
        ensures
            group@ == (GroupView { tasks: self@.tasks.push(task), ..self@ }),
    {
        let mut g = self;
        g.tasks.push(task);
        g
    }

    /// Adds the services and tasks of `sub`, in order; each service takes on
    /// this group's filters and wrappers after those it has.
    pub fn sub_group(self, sub: Self) -> (group: Self)
        ensures
            group@ == with_sub_group(self@, sub@),
    {
        let mut g = self;
        extend_state(&mut g.shared_state, clone_state(&sub.shared_state));
        let ghost start = g@;
        let ghost subs = sub@;
        let mut rest = sub.services;
        let mut done: usize = 0;
        let total = rest.len();
        assert(service_views(rest@) =~= subs.services.skip(0));
        assert(attach_all(subs.services.take(0), start.filters, start.wrappers) =~= Seq::<ServiceView<F, W, H>>::empty());
        assert(start.services + Seq::<ServiceView<F, W, H>>::empty() =~= start.services);
        while rest.len() > 0
            invariant
                total == subs.services.len(),
                done <= total,
                service_views(rest@) == subs.services.skip(done as int),
                g@ == (GroupView {
                    services: start.services + attach_all(subs.services.take(done as int), start.filters, start.wrappers),
                    ..start
                }),
            decreases rest.len(),
        {
            let ghost before_rest = rest@;
            let s = rest.remove(0);
            proof {
                assert(s@ == service_views(before_rest)[0]);
                assert(service_views(rest@) =~= service_views(before_rest).drop_first());
                assert(subs.services.skip(done as int).drop_first() =~= subs.services.skip(done + 1 as int));
                assert(subs.services.take(done + 1 as int) =~= subs.services.take(done as int).push(s@));
                assert(attach_all(subs.services.take(done + 1 as int), start.filters, start.wrappers) =~= attach_all(
                    subs.services.take(done as int),
                    start.filters,
                    start.wrappers,
                ).push(attach(s@, start.filters, start.wrappers)));
            }
            g = g.service(s);
            proof {
                assert(g@.services =~= start.services + attach_all(subs.services.take(done + 1 as int), start.filters, start.wrappers));
            }
            done = done + 1;
        }
        assert(subs.services.take(done as int) =~= subs.services);
        let ghost before_tasks = g.tasks@;
        let mut tasks = sub.tasks;
        g.tasks.append(&mut tasks);
        assert(g@.tasks =~= start.tasks + subs.tasks);
        g
    }
}

/// A filter added to a group reaches only the services added after it: the
/// services already there keep their filters, and the next service added
/// runs its own filters, then the group's, then this one.
pub proof fn law_filters_apply_to_later_services<F: ?Sized, W: ?Sized, H: ?Sized, T: ?Sized>(
    g: GroupView<F, W, H, T>,
    f: Arc<F>,
    s: ServiceView<F, W, H>,
)
    ensures
        with_filter(g, f).services == g.services,
        with_service(with_filter(g, f), s).services.last().filters == s.filters + g.filters.push(f),
        with_service(g, s).services.last().filters == s.filters + g.filters,
        with_filter(with_service(g, s), f).services.last().filters == s.filters + g.filters,
{
}

/// A group added to another keeps its order after the services already
/// there, and each of its services takes on the outer group's filters and
/// wrappers after its own (which already include the inner group's).
pub proof fn law_sub_groups_inherit<F: ?Sized, W: ?Sized, H: ?Sized, T: ?Sized>(
    g: GroupView<F, W, H, T>,
    sub: GroupView<F, W, H, T>,
)
    ensures
        with_sub_group(g, sub).services.len() == g.services.len() + sub.services.len(),
        forall|i: int| 0 <= i < g.services.len() ==> #[trigger] with_sub_group(g, sub).services[i] == g.services[i],
        forall|i: int|
            0 <= i < sub.services.len() ==> #[trigger] with_sub_group(g, sub).services[g.services.len() + i]
                == attach(sub.services[i], g.filters, g.wrappers),
        with_sub_group(g, sub).filters == g.filters,
        with_sub_group(g, sub).wrappers == g.wrappers,
{
}

/// The services a server asks, in order, each with the registry's filters
/// and wrappers after its own; the default service, if any; and the tasks.
pub struct ServiceRegistry<F: ?Sized, W: ?Sized, H: ?Sized, T: ?Sized> {
    pub services: Vec<Arc<Service<F, W, H>>>,
    pub default_service: Option<Arc<Service<F, W, H>>>,
    pub tasks: Vec<Arc<T>>,
    pub filters: Vec<Arc<F>>,
    pub wrappers: Vec<Arc<W>>,
}

impl<F: ?Sized, W: ?Sized, H: ?Sized, T: ?Sized> ServiceRegistry<F, W, H, T> {
    /// An empty registry.
    pub fn new() -> (registry: Self)
        ensures
            registry.services@.len() == 0,
            registry.default_service is None,
            registry.tasks@.len() == 0,
            registry.filters@.len() == 0,
            registry.wrappers@.len() == 0,
    {
        ServiceRegistry {
            services: Vec::new(),
            default_service: None,
            tasks: Vec::new(),
            filters: Vec::new(),
            wrappers: Vec::new(),
        }
    }

    /// Adds a service after those registered, with the registry's filters and
    /// wrappers after its own.
    pub fn register(&mut self, service: Service<F, W, H>)
        ensures
            final(self).services@.len() == old(self).services@.len() + 1,
            forall|i: int| 0 <= i < old(self).services@.len() ==> #[trigger] final(self).services@[i] == old(self).services@[i],
            final(self).services@.last()@ == attach(service@, old(self).filters@, old(self).wrappers@),
            final(self).filters == old(self).filters,
            final(self).wrappers == old(self).wrappers,
            final(self).tasks == old(self).tasks,
            final(self).default_service == old(self).default_service,
    {
        let attached = service.attach(&self.filters, &self.wrappers);
        self.services.push(Arc::new(attached));
    }

    /// Adds a filter for the services registered from now on.
    pub fn filter(&mut self, filter: Arc<F>)
        ensures
            final(self).filters@ == old(self).filters@.push(filter),
            final(self).services == old(self).services,
            final(self).wrappers == old(self).wrappers,
            final(self).tasks == old(self).tasks,
            final(self).default_service == old(self).default_service,
    {
        self.filters.push(filter);
    }

    /// Adds a wrapper for the services registered from now on.
    pub fn wrap(&mut self, wrapper: Arc<W>)
        ensures
            final(self).wrappers@ == old(self).wrappers@.push(wrapper),
            final(self).services == old(self).services,
            final(self).filters == old(self).filters,
            final(self).tasks == old(self).tasks,
            final(self).default_service == old(self).default_service,
    {
        self.wrappers.push(wrapper);
    }

    /// Makes `service`, with the registry's filters and wrappers after its
    /// own, the service that answers when no registered one does.
    pub fn set_default_service(&mut self, service: Service<F, W, H>)
        ensures
            final(self).default_service matches Some(d) && (*d)@ == attach(service@, old(self).filters@, old(self).wrappers@),
            final(self).services == old(self).services,
            final(self).filters == old(self).filters,
            final(self).wrappers == old(self).wrappers,
            final(self).tasks == old(self).tasks,
    {
        let attached = service.attach(&self.filters, &self.wrappers);
        self.default_service = Some(Arc::new(attached));
    }

    /// Registers the services of a group in order, each taking on the values
    /// of `shared_state` over its own of the same type, then its tasks.
    pub fn register_group(&mut self, group: ServiceGroup<F, W, H, T>, shared_state: &http::Extensions)
        ensures
            final(self).services@.len() == old(self).services@.len() + group@.services.len(),
            forall|i: int| 0 <= i < old(self).services@.len() ==> #[trigger] final(self).services@[i] == old(self).services@[i],
            forall|i: int|
                0 <= i < group@.services.len() ==> (#[trigger] final(self).services@[old(self).services@.len() + i])@
                    == attach(group@.services[i], old(self).filters@, old(self).wrappers@),
            final(self).tasks@ == old(self).tasks@ + group@.tasks,
            final(self).filters == old(self).filters,
            final(self).wrappers == old(self).wrappers,
    {
        let ghost start = self.services@;
        let ghost gv = group@;
        let ghost filters = self.filters@;
        let ghost wrappers = self.wrappers@;
        let mut rest = group.services;
        let mut done: usize = 0;
        let total = rest.len();
        assert(service_views(rest@) =~= gv.services.skip(0));
        while rest.len() > 0
            invariant
                total == gv.services.len(),
                done <= total,
                service_views(rest@) == gv.services.skip(done as int),
                self.filters@ == filters,
                self.wrappers@ == wrappers,
                self.filters == old(self).filters,
                self.wrappers == old(self).wrappers,
                self.tasks == old(self).tasks,
                start == old(self).services@,
                self.services@.len() == start.len() + done,
                forall|i: int| 0 <= i < start.len() ==> #[trigger] self.services@[i] == start[i],
                forall|i: int|
                    0 <= i < done ==> (#[trigger] self.services@[start.len() + i])@ == attach(gv.services[i], filters, wrappers),
            decreases rest.len(),
        {
            let ghost before_rest = rest@;
            let mut s = rest.remove(0);
            extend_state(&mut s.shared_state, clone_state(shared_state));
            proof {
                assert(s@ == service_views(before_rest)[0]);
                assert(service_views(before_rest).len() == before_rest.len());
                assert(done < total);
                assert(gv.services.skip(done as int)[0] == gv.services[done as int]);
                assert(s@ == gv.services[done as int]);
                assert(service_views(rest@) =~= service_views(before_rest).drop_first());
                assert(gv.services.skip(done as int).drop_first() =~= gv.services.skip(done + 1 as int));
            }
            self.register(s);
            done = done + 1;
        }
        let mut tasks = group.tasks;
        self.tasks.append(&mut tasks);
    }
}

} // verus!
