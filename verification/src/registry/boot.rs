//! Which installed servers are started when the application starts.

use crate::registry::store::query::server_views;
use crate::registry::types::{InstalledServer, InstalledServerView};
use vstd::prelude::*;

verus! {

/// How many servers connect at one time during the start.
pub const BOOT_SPAWN_CONCURRENCY: usize = 8;

/// What happens to the installed servers at the start.
#[derive(Debug)]
pub enum BootPlan<E> {
    /// They could not be listed, so none is started.
    ListFailed { error: E },
    /// None is installed.
    NothingInstalled,
    /// `installed` are installed; those of `start` are connected, and those of `skip` are not,
    /// being disabled.
    Spawn { installed: usize, start: Vec<InstalledServer>, skip: Vec<InstalledServer> },
}

/// The servers that are enabled, or those that are not, in order.
pub open spec fn with_flag(servers: Seq<InstalledServerView>, enabled: bool) -> Seq<
    InstalledServerView,
> {
    servers.filter(|server: InstalledServerView| server.enabled == enabled)
}

/// The servers to connect and those to leave alone, each in the order in which they are listed.
pub fn split_enabled(servers: Vec<InstalledServer>) -> (r: (
    Vec<InstalledServer>,
    Vec<InstalledServer>,
))
    ensures
        server_views(r.0@) == with_flag(server_views(servers@), true),
        server_views(r.1@) == with_flag(server_views(servers@), false),
{
    let ghost on = |server: InstalledServerView| server.enabled == true;
    let ghost off = |server: InstalledServerView| server.enabled == false;
    let ghost all = server_views(servers@);
    let mut start: Vec<InstalledServer> = Vec::new();
    let mut skip: Vec<InstalledServer> = Vec::new();
    let mut i: usize = 0;
    reveal(Seq::filter);
    assert(server_views(start@) =~= all.take(0).filter(on));
    assert(server_views(skip@) =~= all.take(0).filter(off));
    while i < servers.len()
        invariant
            i <= servers@.len(),
            all == server_views(servers@),
            on == (|server: InstalledServerView| server.enabled == true),
            off == (|server: InstalledServerView| server.enabled == false),
            server_views(start@) == all.take(i as int).filter(on),
            server_views(skip@) == all.take(i as int).filter(off),
        decreases servers@.len() - i,
    {
        reveal(Seq::filter);
        let ghost before = (start@, skip@);
        assert(all.take(i + 1).drop_last() =~= all.take(i as int));
        assert(all.take(i + 1).last() == servers@[i as int]@);
        let server: InstalledServer = servers[i].clone();
        if server.enabled {
            start.push(server);
            assert(server_views(start@) =~= server_views(before.0).push(server@));
        } else {
            skip.push(server);
            assert(server_views(skip@) =~= server_views(before.1).push(server@));
        }
        i = i + 1;
    }
    assert(all.take(servers@.len() as int) =~= all);
    (start, skip)
}

/// What happens to the installed servers at the start, from how their listing ended.
pub open spec fn planned<E>(listing: Result<Vec<InstalledServer>, E>, plan: BootPlan<E>) -> bool {
    match listing {
        Err(error) => plan == BootPlan::<E>::ListFailed { error },
        Ok(servers) => if servers@.len() == 0 {
            plan is NothingInstalled
        } else {
            &&& plan is Spawn
            &&& plan->installed == servers@.len()
            &&& server_views(plan->start@) == with_flag(server_views(servers@), true)
            &&& server_views(plan->skip@) == with_flag(server_views(servers@), false)
        },
    }
}

/// What happens to the installed servers at the start, from how their listing ended.
pub fn spawn_installed_servers<E>(listing: Result<Vec<InstalledServer>, E>) -> (r: BootPlan<E>)
    ensures
        match r {
            BootPlan::ListFailed { error } => listing == Err::<Vec<InstalledServer>, E>(error),
            BootPlan::NothingInstalled => listing is Ok && listing->Ok_0@.len() == 0,
            BootPlan::Spawn { installed, start, skip } => {
                &&& listing is Ok
                &&& installed == listing->Ok_0@.len()
                &&& installed > 0
                &&& server_views(start@) == with_flag(server_views(listing->Ok_0@), true)
                &&& server_views(skip@) == with_flag(server_views(listing->Ok_0@), false)
            },
        },
        planned(listing, r),
{
    match listing {
        Err(error) => BootPlan::ListFailed { error },
        Ok(servers) => {
            let installed: usize = servers.len();
            if installed == 0 {
                return BootPlan::NothingInstalled;
            }
            let (start, skip): (
                Vec<InstalledServer>,
                Vec<InstalledServer>,
            ) = split_enabled(servers);
            BootPlan::Spawn { installed, start, skip }
        },
    }
}

/// Every installed server is started or left alone, none is both, and a disabled one is never
/// started.
pub proof fn law_boot_starts_the_enabled_ones(servers: Seq<InstalledServerView>)
    ensures
        with_flag(servers, true).len() + with_flag(servers, false).len() == servers.len(),
        forall|i: int|
            0 <= i < with_flag(servers, true).len() ==> (#[trigger] with_flag(
                servers,
                true,
            )[i]).enabled,
        forall|i: int|
            0 <= i < servers.len() && (#[trigger] servers[i]).enabled ==> with_flag(
                servers,
                true,
            ).contains(servers[i]),
    decreases servers.len(),
{
    broadcast use vstd::seq_lib::group_filter_ensures;

    let on = |server: InstalledServerView| server.enabled == true;
    let off = |server: InstalledServerView| server.enabled == false;
    assert forall|i: int| 0 <= i < with_flag(servers, true).len() implies (#[trigger] with_flag(
        servers,
        true,
    )[i]).enabled by {
        assert(on(servers.filter(on)[i]));
    }
    assert forall|i: int| 0 <= i < servers.len() && (
    #[trigger] servers[i]).enabled implies with_flag(servers, true).contains(servers[i]) by {
        assert(on(servers[i]));
        assert(servers.filter(on).contains(servers[i]));
    }
    if servers.len() > 0 {
        reveal(Seq::filter);
        law_boot_starts_the_enabled_ones(servers.drop_last());
    }
}

/// The servers are taken in the order in which they are listed: one more server at the end is
/// connected, or left alone, behind the others, by its own flag.
pub proof fn law_servers_are_connected_in_order(
    servers: Seq<InstalledServerView>,
    server: InstalledServerView,
    enabled: bool,
)
    ensures
        with_flag(Seq::empty(), enabled) == Seq::<InstalledServerView>::empty(),
        with_flag(servers.push(server), enabled) == (if server.enabled == enabled {
            with_flag(servers, enabled).push(server)
        } else {
            with_flag(servers, enabled)
        }),
{
    reveal(Seq::filter);
    assert(servers.push(server).drop_last() =~= servers);
}

/// A listing that failed starts nothing and is told with its very error, an empty one starts
/// nothing, and of any other each server that is enabled is started, and no other.
pub proof fn law_the_start_follows_the_listing<E>(
    listing: Result<Vec<InstalledServer>, E>,
    plan: BootPlan<E>,
    i: int,
)
    requires
        planned(listing, plan),
    ensures
        listing is Err <==> plan is ListFailed,
        listing is Err ==> plan->error == listing->Err_0,
        listing is Ok && listing->Ok_0@.len() == 0 <==> plan is NothingInstalled,
        plan is Spawn ==> plan->installed == listing->Ok_0@.len() && plan->start@.len()
            + plan->skip@.len() == plan->installed,
        plan is Spawn && 0 <= i < listing->Ok_0@.len() && listing->Ok_0@[i].enabled ==> server_views(
            plan->start@,
        ).contains(listing->Ok_0@[i]@),
        plan is Spawn && 0 <= i < plan->start@.len() ==> plan->start@[i].enabled,
{
    if plan is Spawn {
        let all = server_views(listing->Ok_0@);
        law_boot_starts_the_enabled_ones(all);
        assert(server_views(plan->start@).len() == plan->start@.len());
        assert(server_views(plan->skip@).len() == plan->skip@.len());
        if 0 <= i < listing->Ok_0@.len() {
            assert(all[i] == listing->Ok_0@[i]@);
        }
        if 0 <= i < plan->start@.len() {
            assert(server_views(plan->start@)[i] == plan->start@[i]@);
            assert(with_flag(all, true)[i].enabled);
        }
    }
}

} // verus!
