//! The daemon's register of mounts and its answers to requests.
//!
//! Mounts of one instance share the buffers in memory: the register gives each
//! instance the number of one buffer manager for as long as it is mounted.
//!
//! Times are nanoseconds of a monotonic clock, as the caller read them.
use std::collections::hash_map::RandomState;

use dashmap::DashMap;
use vstd::prelude::*;

use crate::daemon::client::{trim_line_end, without_line_end};
use crate::daemon::protocol::{
    ListResult, MountSummary, Request, Response, StatusResult, PROTOCOL_VERSION,
};
use crate::json::Value;
use crate::mount_service::GitConfig;
use crate::paths::{normal, utf8_lossy, FsPath};
use crate::persistent_cache::InstanceHash;
use crate::text::{copy_bytes, decimal, decimal_text, join2, join3, same};

verus! {

/// A mount that the daemon hosts.
#[derive(Debug)]
pub struct ActiveMount {
    /// Backend.
    pub backend: String,
    /// Instance hash.
    pub instance: String,
    /// Mount point.
    pub mount_point: FsPath,
    /// When it started.
    pub started_at: u64,
}

/// What the register says of a mount.
pub struct MountRecord {
    /// Backend.
    pub backend: Seq<char>,
    /// Instance hash.
    pub instance: Seq<char>,
    /// Mount point.
    pub mount_point: Seq<u8>,
    /// When it started.
    pub started_at: u64,
}

impl View for ActiveMount {
    type V = MountRecord;

    open spec fn view(&self) -> MountRecord {
        MountRecord {
            backend: self.backend@,
            instance: self.instance@,
            mount_point: self.mount_point@,
            started_at: self.started_at,
        }
    }
}

impl ActiveMount {
    /// A copy of the entry.
    pub fn copy(&self) -> (r: ActiveMount)
        ensures
            r@ == self@,
    {
        ActiveMount {
            backend: self.backend.clone(),
            instance: self.instance.clone(),
            mount_point: self.mount_point.copy(),
            started_at: self.started_at,
        }
    }
}

/// The mounts that a map holds, by key.
pub uninterp spec fn held_mounts(
    map: DashMap<Vec<u8>, ActiveMount, RandomState>,
) -> Map<Seq<u8>, MountRecord>;

/// The numbers that a map holds, by instance.
pub uninterp spec fn held_numbers(map: DashMap<String, u64, RandomState>) -> Map<Seq<char>, u64>;

/// No mounts.
pub open spec fn no_mounts() -> Map<Seq<u8>, MountRecord> {
    Map::empty()
}

/// No numbers.
pub open spec fn no_numbers() -> Map<Seq<char>, u64> {
    Map::empty()
}

/// `DashMap::new`: the map is empty.
#[verifier::external_body]
fn new_mounts() -> (r: DashMap<Vec<u8>, ActiveMount, RandomState>)
    ensures
        held_mounts(r) == no_mounts(),
{
    DashMap::new()
}

/// `DashMap::get`: a copy of the entry under the key, where there is one.
#[verifier::external_body]
fn mounts_get(map: &DashMap<Vec<u8>, ActiveMount, RandomState>, key: &Vec<u8>) -> (r: Option<
    ActiveMount,
>)
    ensures
        match r {
            Some(mount) => held_mounts(*map).contains_key(key@) && mount@ == held_mounts(
                *map,
            )[key@],
            None => !held_mounts(*map).contains_key(key@),
        },
{
    map.get(key).map(|entry| entry.value().copy())
}

/// `DashMap::insert`: the entry stands under the key, in place of an earlier
/// one, which is returned. The map is borrowed for writing, so nothing else
/// changes it meanwhile.
#[verifier::external_body]
fn mounts_insert(
    map: &mut DashMap<Vec<u8>, ActiveMount, RandomState>,
    key: Vec<u8>,
    mount: ActiveMount,
) -> (r: Option<ActiveMount>)
    ensures
        held_mounts(*final(map)) == held_mounts(*old(map)).insert(key@, mount@),
        match r {
            Some(earlier) => held_mounts(*old(map)).contains_key(key@) && earlier@ == held_mounts(
                *old(map),
            )[key@],
            None => !held_mounts(*old(map)).contains_key(key@),
        },
{
    map.insert(key, mount)
}

/// `DashMap::remove`: the entry under the key leaves and is returned.
#[verifier::external_body]
fn mounts_remove(map: &mut DashMap<Vec<u8>, ActiveMount, RandomState>, key: &Vec<u8>) -> (r: Option<
    ActiveMount,
>)
    ensures
        held_mounts(*final(map)) == held_mounts(*old(map)).remove(key@),
        match r {
            Some(mount) => held_mounts(*old(map)).contains_key(key@) && mount@ == held_mounts(
                *old(map),
            )[key@],
            None => !held_mounts(*old(map)).contains_key(key@),
        },
{
    map.remove(key).map(|entry| entry.1)
}

/// `DashMap::len`: the number of entries.
#[verifier::external_body]
fn mounts_len(map: &DashMap<Vec<u8>, ActiveMount, RandomState>) -> (r: usize)
    ensures
        r == held_mounts(*map).dom().len(),
{
    map.len()
}

/// `DashMap::iter`: every entry comes once, in an order that is left open.
#[verifier::external_body]
fn mounts_entries(map: &DashMap<Vec<u8>, ActiveMount, RandomState>) -> (r: Vec<
    (Vec<u8>, ActiveMount),
>)
    ensures
        lists_mounts(r@, held_mounts(*map)),
{
    map.iter().map(|entry| (copy_bytes(entry.key()), entry.value().copy())).collect()
}

/// `DashMap::new`: the map is empty.
#[verifier::external_body]
fn new_numbers() -> (r: DashMap<String, u64, RandomState>)
    ensures
        held_numbers(r) == no_numbers(),
{
    DashMap::new()
}

/// `DashMap::get`: the number under the key, where there is one.
#[verifier::external_body]
fn numbers_get(map: &DashMap<String, u64, RandomState>, key: &str) -> (r: Option<u64>)
    ensures
        match r {
            Some(number) => held_numbers(*map).contains_key(key@) && number == held_numbers(
                *map,
            )[key@],
            None => !held_numbers(*map).contains_key(key@),
        },
{
    map.get(key).map(|entry| *entry.value())
}

/// `DashMap::insert`: the number stands under the key, in place of an earlier
/// one, which is returned. The map is borrowed for writing, so nothing else
/// changes it meanwhile.
#[verifier::external_body]
fn numbers_insert(map: &mut DashMap<String, u64, RandomState>, key: String, number: u64) -> (r:
    Option<u64>)
    ensures
        held_numbers(*final(map)) == held_numbers(*old(map)).insert(key@, number),
        match r {
            Some(earlier) => held_numbers(*old(map)).contains_key(key@) && earlier == held_numbers(
                *old(map),
            )[key@],
            None => !held_numbers(*old(map)).contains_key(key@),
        },
{
    map.insert(key, number)
}

/// `DashMap::remove`: the entry under the key leaves and its number is returned.
#[verifier::external_body]
fn numbers_remove(map: &mut DashMap<String, u64, RandomState>, key: &str) -> (r: Option<u64>)
    ensures
        held_numbers(*final(map)) == held_numbers(*old(map)).remove(key@),
        match r {
            Some(number) => held_numbers(*old(map)).contains_key(key@) && number == held_numbers(
                *old(map),
            )[key@],
            None => !held_numbers(*old(map)).contains_key(key@),
        },
{
    map.remove(key).map(|entry| entry.1)
}

/// Whether a list holds each entry of a map once.
pub open spec fn lists_mounts(
    list: Seq<(Vec<u8>, ActiveMount)>,
    map: Map<Seq<u8>, MountRecord>,
) -> bool {
    &&& forall|i: int|
        0 <= i < list.len() ==> map.contains_key(#[trigger] list[i].0@) && list[i].1@
            == map[list[i].0@]
    &&& forall|i: int, j: int|
        0 <= i < list.len() && 0 <= j < list.len() && list[i].0@ == list[j].0@ ==> i == j
    &&& forall|key: Seq<u8>|
        map.contains_key(key) ==> exists|i: int| 0 <= i < list.len() && list[i].0@ == key
}

/// The daemon's register.
pub struct Daemon {
    mounts: DashMap<Vec<u8>, ActiveMount, RandomState>,
    buffer_managers: DashMap<String, u64, RandomState>,
    next_manager: u64,
}

/// The buffer manager of an instance.
#[derive(Debug, Clone, Copy, PartialEq, Eq, Structural)]
pub struct SharedManager {
    /// Its number.
    pub number: u64,
    /// Whether it has to be made: no mount of the instance had one.
    pub created: bool,
}

/// The seconds from one time to another; none if the clock went back.
pub open spec fn age(started_at: u64, now: u64) -> int {
    if now >= started_at {
        (now - started_at) / 1_000_000_000
    } else {
        0
    }
}

/// Whether a summary tells what the register says.
pub open spec fn tells_mount(summary: MountSummary, record: MountRecord, now: u64) -> bool {
    &&& summary.backend@ == record.backend
    &&& summary.instance@ == record.instance
    &&& summary.mount_point@ == record.mount_point
    &&& summary.age_secs == age(record.started_at, now)
}

fn summarize(mount: &ActiveMount, now: u64) -> (r: MountSummary)
    ensures
        tells_mount(r, mount@, now),
{
    let age_secs: u64 = if now >= mount.started_at {
        (now - mount.started_at) / 1_000_000_000
    } else {
        0
    };
    MountSummary {
        backend: mount.backend.clone(),
        instance: mount.instance.clone(),
        mount_point: mount.mount_point.copy(),
        age_secs,
    }
}

/// Whether a mount of the instance is in the register.
pub open spec fn instance_used(mounts: Map<Seq<u8>, MountRecord>, instance: Seq<char>) -> bool {
    exists|key: Seq<u8>| #[trigger] mounts.contains_key(key) && mounts[key].instance == instance
}

/// The numbers without that of an instance that is not mounted.
pub open spec fn numbers_in_use(
    numbers: Map<Seq<char>, u64>,
    mounts: Map<Seq<u8>, MountRecord>,
    instance: Seq<char>,
) -> Map<Seq<char>, u64> {
    if instance_used(mounts, instance) {
        numbers
    } else {
        numbers.remove(instance)
    }
}

impl Daemon {
    /// The mounts by key.
    pub closed spec fn mounts(&self) -> Map<Seq<u8>, MountRecord> {
        held_mounts(self.mounts)
    }

    /// The numbers of buffer managers by instance.
    pub closed spec fn managers(&self) -> Map<Seq<char>, u64> {
        held_numbers(self.buffer_managers)
    }

    /// The number of the next buffer manager.
    pub closed spec fn next_number(&self) -> u64 {
        self.next_manager
    }

    /// Every mount stands under the key of its path and its instance has a
    /// buffer manager; different instances have different ones.
    pub open spec fn wf(&self) -> bool {
        &&& forall|key: Seq<u8>| #[trigger]
            self.mounts().contains_key(key) ==> normal(self.mounts()[key].mount_point) == key
                && self.managers().contains_key(self.mounts()[key].instance)
        &&& forall|a: Seq<char>| #[trigger]
            self.managers().contains_key(a) ==> self.managers()[a] < self.next_number()
        &&& forall|a: Seq<char>, b: Seq<char>| #[trigger]
            self.managers().contains_key(a) && #[trigger] self.managers().contains_key(b) && a != b
                ==> self.managers()[a] != self.managers()[b]
    }

    /// A register without mounts.
    pub fn new() -> (r: Daemon)
        ensures
            r.wf(),
            r.mounts() == no_mounts(),
            r.managers() == no_numbers(),
            r.next_number() == 0,
    {
        Daemon { mounts: new_mounts(), buffer_managers: new_numbers(), next_manager: 0 }
    }

    /// Whether there is a number left for another buffer manager.
    pub fn has_numbers(&self) -> (r: bool)
        ensures
            r == (self.next_number() < u64::MAX),
    {
        self.next_manager < u64::MAX
    }

    /// The buffer manager of an instance: the one that its mounts share, or a
    /// new one.
    pub fn shared_buffer_manager(&mut self, instance: &InstanceHash) -> (r: SharedManager)
        requires
            old(self).wf(),
            old(self).next_number() < u64::MAX,
        ensures
            final(self).wf(),
            final(self).mounts() == old(self).mounts(),
            final(self).managers().contains_key(instance.name()),
            final(self).managers()[instance.name()] == r.number,
            r.created == !old(self).managers().contains_key(instance.name()),
            !r.created ==> final(self).managers() == old(self).managers()
                && final(self).next_number() == old(self).next_number(),
            r.created ==> final(self).managers() == old(self).managers().insert(
                instance.name(),
                old(self).next_number(),
            ) && final(self).next_number() == old(self).next_number() + 1,
    {
        match numbers_get(&self.buffer_managers, instance.as_str()) {
            Some(number) => SharedManager { number, created: false },
            None => {
                let number: u64 = self.next_manager;
                self.next_manager = self.next_manager + 1;
                let earlier = numbers_insert(
                    &mut self.buffer_managers,
                    instance.as_str().to_owned(),
                    number,
                );
                proof {
                    let name = instance.name();
                    assert forall|key: Seq<u8>| #[trigger] self.mounts().contains_key(
                        key,
                    ) implies normal(self.mounts()[key].mount_point) == key
                        && self.managers().contains_key(self.mounts()[key].instance) by {
                        assert(old(self).mounts().contains_key(key));
                    }
                    assert forall|a: Seq<char>| #[trigger] self.managers().contains_key(
                        a,
                    ) implies self.managers()[a] < self.next_number() by {
                        if a != name {
                            assert(old(self).managers().contains_key(a));
                        }
                    }
                    assert forall|a: Seq<char>, b: Seq<char>| #[trigger]
                        self.managers().contains_key(a) && #[trigger] self.managers().contains_key(
                            b,
                        ) && a != b implies self.managers()[a] != self.managers()[b] by {
                        if a != name {
                            assert(old(self).managers().contains_key(a));
                        }
                        if b != name {
                            assert(old(self).managers().contains_key(b));
                        }
                    }
                }
                SharedManager { number, created: true }
            },
        }
    }

    /// Drops the buffer manager of an instance that is not mounted any more.
    pub fn drop_buffer_manager_if_idle(&mut self, instance: &str)
        requires
            old(self).wf(),
        ensures
            final(self).wf(),
            final(self).mounts() == old(self).mounts(),
            final(self).managers() == numbers_in_use(
                old(self).managers(),
                old(self).mounts(),
                instance@,
            ),
            final(self).next_number() == old(self).next_number(),
    {
        let entries = mounts_entries(&self.mounts);
        let mut i: usize = 0;
        while i < entries.len()
            invariant
                i <= entries@.len(),
                lists_mounts(entries@, self.mounts()),
                *self == *old(self),
                old(self).wf(),
                forall|j: int| 0 <= j < i ==> (#[trigger] entries@[j]).1@.instance != instance@,
            decreases entries@.len() - i,
        {
            if same(entries[i].1.instance.as_str(), instance) {
                assert(self.mounts().contains_key(entries@[i as int].0@));
                assert(instance_used(self.mounts(), instance@));
                return;
            }
            i += 1;
        }
        assert(!instance_used(self.mounts(), instance@)) by {
            assert forall|key: Seq<u8>| #[trigger] self.mounts().contains_key(
                key,
            ) implies self.mounts()[key].instance != instance@ by {
                let j = choose|j: int| 0 <= j < entries@.len() && entries@[j].0@ == key;
                assert(entries@[j].1@.instance != instance@);
            }
        }
        let gone = numbers_remove(&mut self.buffer_managers, instance);
        assert(self.wf()) by {
            assert forall|key: Seq<u8>| #[trigger] self.mounts().contains_key(key) implies normal(
                self.mounts()[key].mount_point,
            ) == key && self.managers().contains_key(self.mounts()[key].instance) by {
                assert(old(self).mounts().contains_key(key));
                assert(self.mounts()[key].instance != instance@);
            }
            assert forall|a: Seq<char>| #[trigger] self.managers().contains_key(
                a,
            ) implies self.managers()[a] < self.next_number() by {
                assert(old(self).managers().contains_key(a));
            }
            assert forall|a: Seq<char>, b: Seq<char>| #[trigger]
                self.managers().contains_key(a) && #[trigger] self.managers().contains_key(b) && a
                    != b implies self.managers()[a] != self.managers()[b] by {
                assert(old(self).managers().contains_key(a));
                assert(old(self).managers().contains_key(b));
            }
        }
    }

    /// All mounts, in an order that is left open.
    pub fn list_mounts(&self, now: u64) -> (r: ListResult)
        ensures
            lists_summaries(r.mounts@, self.mounts(), now),
    {
        let entries = mounts_entries(&self.mounts);
        let mut out: Vec<MountSummary> = Vec::new();
        let mut i: usize = 0;
        while i < entries.len()
            invariant
                i <= entries@.len(),
                out@.len() == i,
                forall|j: int|
                    0 <= j < i ==> tells_mount(#[trigger] out@[j], entries@[j].1@, now),
            decreases entries@.len() - i,
        {
            out.push(summarize(&entries[i].1, now));
            i += 1;
        }
        proof {
            let keys = entries@.map_values(|e: (Vec<u8>, ActiveMount)| e.0@);
            assert(summaries_under(out@, keys, self.mounts(), now)) by {
                assert forall|i: int| 0 <= i < out@.len() implies self.mounts().contains_key(
                    #[trigger] keys[i],
                ) && tells_mount(out@[i], self.mounts()[keys[i]], now) by {
                    assert(self.mounts().contains_key(entries@[i].0@));
                    assert(tells_mount(out@[i], entries@[i].1@, now));
                }
                assert forall|i: int, j: int|
                    0 <= i < j < keys.len() implies #[trigger] keys[i] != #[trigger] keys[j] by {
                    assert(entries@[i].0@ == keys[i] && entries@[j].0@ == keys[j]);
                }
                assert forall|key: Seq<u8>| #[trigger] self.mounts().contains_key(
                    key,
                ) implies keys.contains(key) by {
                    let i = choose|i: int| 0 <= i < entries@.len() && entries@[i].0@ == key;
                    assert(keys[i] == key);
                }
            }
        }
        ListResult { mounts: out }
    }

    /// The mount at a mount point, where there is one.
    pub fn mount_summary(&self, mount_point: &FsPath, now: u64) -> (r: Option<MountSummary>)
        ensures
            match r {
                Some(summary) => self.mounts().contains_key(normal(mount_point@)) && tells_mount(
                    summary,
                    self.mounts()[normal(mount_point@)],
                    now,
                ),
                None => !self.mounts().contains_key(normal(mount_point@)),
            },
    {
        let key = mount_point.normalized();
        match mounts_get(&self.mounts, &key) {
            Some(mount) => Some(summarize(&mount, now)),
            None => None,
        }
    }

    /// Whether this is the register after a mount was entered.
    pub open spec fn entered(
        &self,
        before: Daemon,
        backend: Seq<char>,
        instance: Seq<char>,
        mount_point: Seq<u8>,
        now: u64,
    ) -> bool {
        self.mounts() == before.mounts().insert(
            normal(mount_point),
            MountRecord { backend, instance, mount_point, started_at: now },
        )
    }

    /// Enters a mount that starts now, and gives the buffer manager that it
    /// uses. A mount point that is in use is an error.
    pub fn start_mount(
        &mut self,
        backend_name: &str,
        instance: &InstanceHash,
        mount_point: &FsPath,
        now: u64,
    ) -> (r: Result<SharedManager, String>)
        requires
            old(self).wf(),
            old(self).next_number() < u64::MAX,
        ensures
            final(self).wf(),
            match r {
                Ok(manager) => {
                    &&& !old(self).mounts().contains_key(normal(mount_point@))
                    &&& final(self).entered(
                        *old(self),
                        backend_name@,
                        instance.name(),
                        mount_point@,
                        now,
                    )
                    &&& final(self).managers().contains_key(instance.name())
                    &&& final(self).managers()[instance.name()] == manager.number
                    &&& manager.created == !old(self).managers().contains_key(instance.name())
                    &&& !manager.created ==> final(self).managers() == old(self).managers()
                    &&& manager.created ==> final(self).managers() == old(self).managers().insert(
                        instance.name(),
                        old(self).next_number(),
                    )
                    &&& final(self).next_number() == old(self).next_number() + if manager.created {
                        1int
                    } else {
                        0
                    }
                },
                Err(message) => {
                    &&& old(self).mounts().contains_key(normal(mount_point@))
                    &&& message@ == "mount already active at "@ + utf8_lossy(mount_point@)
                    &&& *final(self) == *old(self)
                },
            },
    {
        let key = mount_point.normalized();
        if mounts_get(&self.mounts, &key).is_some() {
            let shown = mount_point.display();
            return Err(join2("mount already active at ", shown.as_str()));
        }
        let manager = self.shared_buffer_manager(instance);
        let ghost middle = *self;
        let mount = ActiveMount {
            backend: backend_name.to_owned(),
            instance: instance.as_str().to_owned(),
            mount_point: mount_point.copy(),
            started_at: now,
        };
        let earlier = mounts_insert(&mut self.mounts, key, mount);
        assert(self.wf()) by {
            assert forall|k: Seq<u8>| #[trigger] self.mounts().contains_key(k) implies normal(
                self.mounts()[k].mount_point,
            ) == k && self.managers().contains_key(self.mounts()[k].instance) by {
                if k != key@ {
                    assert(middle.mounts().contains_key(k));
                }
            }
        }
        Ok(manager)
    }

    /// Takes a mount that ended out of the register, and drops the buffer
    /// manager of its instance if that is not mounted any more.
    pub fn end_mount(&mut self, mount_point: &FsPath, instance: &str)
        requires
            old(self).wf(),
        ensures
            final(self).wf(),
            final(self).mounts() == old(self).mounts().remove(normal(mount_point@)),
            final(self).managers() == numbers_in_use(
                old(self).managers(),
                old(self).mounts().remove(normal(mount_point@)),
                instance@,
            ),
            final(self).next_number() == old(self).next_number(),
    {
        let key = mount_point.normalized();
        let gone = mounts_remove(&mut self.mounts, &key);
        assert(self.managers() == old(self).managers());
        assert(self.next_number() == old(self).next_number());
        assert(self.wf()) by {
            assert forall|k: Seq<u8>| #[trigger] self.mounts().contains_key(k) implies normal(
                self.mounts()[k].mount_point,
            ) == k && self.managers().contains_key(self.mounts()[k].instance) by {
                assert(old(self).mounts().contains_key(k));
            }
        }
        self.drop_buffer_manager_if_idle(instance);
    }

    /// Whether a mount point can be unmounted: it has to be in the register.
    pub fn check_unmount(&self, mount_point: &FsPath) -> (r: Result<(), String>)
        ensures
            match r {
                Ok(_) => self.mounts().contains_key(normal(mount_point@)),
                Err(message) => !self.mounts().contains_key(normal(mount_point@)) && message@
                    == "no active mount at "@ + utf8_lossy(mount_point@),
            },
    {
        let key = mount_point.normalized();
        if mounts_get(&self.mounts, &key).is_some() {
            Ok(())
        } else {
            let shown = mount_point.display();
            Err(join2("no active mount at ", shown.as_str()))
        }
    }

    /// What to do while an unmount takes its course.
    pub fn await_unmount(&self, mount_point: &FsPath, now: u64, deadline: u64) -> (r: UnmountWait)
        ensures
            r == if !self.mounts().contains_key(normal(mount_point@)) {
                UnmountWait::Done
            } else if now >= deadline {
                UnmountWait::GiveUp
            } else {
                UnmountWait::Sleep
            },
    {
        let key = mount_point.normalized();
        if mounts_get(&self.mounts, &key).is_none() {
            UnmountWait::Done
        } else if now >= deadline {
            UnmountWait::GiveUp
        } else {
            UnmountWait::Sleep
        }
    }

    /// What `status` says of a mount point.
    pub fn status(&self, mount_point: &FsPath, now: u64) -> (r: StatusResult)
        ensures
            match r.mount {
                Some(summary) => self.mounts().contains_key(normal(mount_point@)) && tells_mount(
                    summary,
                    self.mounts()[normal(mount_point@)],
                    now,
                ),
                None => !self.mounts().contains_key(normal(mount_point@)),
            },
            r.dirty_files == 0,
            r.cache_hit_ratio is None,
    {
        StatusResult {
            mount: self.mount_summary(mount_point, now),
            dirty_files: 0,
            cache_hit_ratio: None,
        }
    }

    /// The number of mounts.
    pub fn mount_count(&self) -> (r: usize)
        ensures
            r == self.mounts().dom().len(),
    {
        mounts_len(&self.mounts)
    }
}

/// Whether summaries tell the mounts under the given keys, each key once and all
/// of them.
pub open spec fn summaries_under(
    summaries: Seq<MountSummary>,
    keys: Seq<Seq<u8>>,
    mounts: Map<Seq<u8>, MountRecord>,
    now: u64,
) -> bool {
    &&& keys.len() == summaries.len()
    &&& forall|i: int|
        0 <= i < summaries.len() ==> mounts.contains_key(#[trigger] keys[i]) && tells_mount(
            summaries[i],
            mounts[keys[i]],
            now,
        )
    &&& forall|i: int, j: int| 0 <= i < j < keys.len() ==> #[trigger] keys[i] != #[trigger] keys[j]
    &&& forall|key: Seq<u8>| #[trigger] mounts.contains_key(key) ==> keys.contains(key)
}

/// Whether summaries tell each mount once.
pub open spec fn lists_summaries(
    summaries: Seq<MountSummary>,
    mounts: Map<Seq<u8>, MountRecord>,
    now: u64,
) -> bool {
    exists|keys: Seq<Seq<u8>>| summaries_under(summaries, keys, mounts, now)
}

/// What to do while an unmount takes its course.
#[derive(Debug, Clone, Copy, PartialEq, Eq, Structural)]
pub enum UnmountWait {
    /// The mount is gone.
    Done,
    /// It took too long.
    GiveUp,
    /// Look again in a moment.
    Sleep,
}

/// How long an unmount may take, in nanoseconds.
pub const UNMOUNT_TIMEOUT_NANOS: u64 = 15_000_000_000;

/// Whether this is the first of the errors in a list, or that there is none.
pub open spec fn first_error_is(results: Seq<Result<(), String>>, r: Result<(), String>) -> bool {
    match r {
        Ok(_) => forall|i: int| 0 <= i < results.len() ==> (#[trigger] results[i]) is Ok,
        Err(message) => exists|i: int|
            {
                &&& 0 <= i < results.len()
                &&& (#[trigger] results[i]) is Err
                &&& results[i]->Err_0@ == message@
                &&& forall|j: int| 0 <= j < i ==> (#[trigger] results[j]) is Ok
            },
    }
}

/// The first of the errors that came up.
pub fn first_error(results: &Vec<Result<(), String>>) -> (r: Result<(), String>)
    ensures
        first_error_is(results@, r),
{
    let mut i: usize = 0;
    while i < results.len()
        invariant
            i <= results@.len(),
            forall|j: int| 0 <= j < i ==> (#[trigger] results@[j]) is Ok,
        decreases results@.len() - i,
    {
        match &results[i] {
            Ok(_) => {},
            Err(message) => {
                let first = message.clone();
                assert(results@[i as int] is Err && results@[i as int]->Err_0@ == first@);
                return Err(first);
            },
        }
        i += 1;
    }
    Ok(())
}

/// The instance of a Git mount.
pub fn git_instance_hash(config: &GitConfig) -> (r: InstanceHash)
    ensures
        r.name() == crate::persistent_cache::hash_name(
            crate::persistent_cache::joined_parts(
                seq!["git"@, config.source@, config.branch@],
            ),
        ),
        r.name().len() == 64,
{
    let mut parts: Vec<&str> = Vec::new();
    parts.push("git");
    parts.push(config.source.as_str());
    parts.push(config.branch.as_str());
    assert(crate::persistent_cache::texts(parts@) =~= seq![
        "git"@,
        config.source@,
        config.branch@,
    ]);
    InstanceHash::from_parts(parts.as_slice())
}

/// A step on the way to a daemon that listens.
#[derive(Debug, Clone, Copy, PartialEq, Eq, Structural)]
pub enum StartupStep {
    /// Write the process ID to its file.
    WritePid,
    /// Remove the socket that an earlier daemon left.
    RemoveStaleSocket,
    /// Listen on the socket.
    Bind,
    /// Let only the owner use the socket.
    RestrictSocket,
}

/// The steps on the way to a daemon that listens.
pub open spec fn startup_steps(socket_exists: bool) -> Seq<StartupStep> {
    if socket_exists {
        seq![
            StartupStep::WritePid,
            StartupStep::RemoveStaleSocket,
            StartupStep::Bind,
            StartupStep::RestrictSocket,
        ]
    } else {
        seq![StartupStep::WritePid, StartupStep::Bind, StartupStep::RestrictSocket]
    }
}

/// Plans how the daemon comes to listen on its socket, given whether there is
/// one and whether a daemon answers on it. A daemon that runs is not replaced:
/// then no step is taken, and its files stay as they are.
pub fn plan_startup(socket: &FsPath, exists: bool, answers: bool) -> (r: Result<
    Vec<StartupStep>,
    String,
>)
    ensures
        match r {
            Ok(steps) => !(exists && answers) && steps@ == startup_steps(exists),
            Err(message) => exists && answers && message@ == "daemon already running at "@
                + utf8_lossy(socket@),
        },
{
    if exists && answers {
        let shown = socket.display();
        return Err(join2("daemon already running at ", shown.as_str()));
    }
    let mut steps: Vec<StartupStep> = Vec::new();
    steps.push(StartupStep::WritePid);
    if exists {
        steps.push(StartupStep::RemoveStaleSocket);
    }
    steps.push(StartupStep::Bind);
    steps.push(StartupStep::RestrictSocket);
    assert(steps@ =~= startup_steps(exists));
    Ok(steps)
}

/// What happens while the daemon serves.
#[derive(Debug, Clone, Copy, PartialEq, Eq, Structural)]
pub enum ServeEvent {
    /// A client connected.
    Connected,
    /// A connection could not be taken.
    AcceptFailed,
    /// The daemon is told to stop.
    Shutdown,
}

/// What the daemon does about it.
#[derive(Debug, Clone, Copy, PartialEq, Eq, Structural)]
pub enum ServeAction {
    /// Serve the client and go on.
    ServeClient,
    /// Wait for so many milliseconds and go on.
    Pause(u64),
    /// Unmount everything and stop.
    Stop,
}

/// Decides what the daemon does while it serves.
pub fn serve_action(event: ServeEvent) -> (r: ServeAction)
    ensures
        r == match event {
            ServeEvent::Connected => ServeAction::ServeClient,
            ServeEvent::AcceptFailed => ServeAction::Pause(50),
            ServeEvent::Shutdown => ServeAction::Stop,
        },
{
    match event {
        ServeEvent::Connected => ServeAction::ServeClient,
        ServeEvent::AcceptFailed => ServeAction::Pause(50),
        ServeEvent::Shutdown => ServeAction::Stop,
    }
}

/// The text of a request, where a line from a client holds one: line ends do not
/// count, and a line of nothing else is passed over.
pub fn request_line(line: &str) -> (r: Option<String>)
    ensures
        match r {
            Some(text) => text@ == without_line_end(line@) && text@.len() > 0,
            None => without_line_end(line@).len() == 0,
        },
{
    let text = trim_line_end(line);
    if text.as_str().is_empty() {
        None
    } else {
        Some(text)
    }
}

/// What a request asks the daemon to do.
#[derive(Debug)]
pub enum MethodCall {
    /// List the mounts.
    List,
    /// Tell the status of a mount point.
    Status(FsPath),
    /// Unmount a mount point.
    Unmount(FsPath),
    /// Mount an S3 bucket, as the parameters say.
    MountS3(Value),
    /// Mount a wiki, as the parameters say.
    MountWiki(Value),
    /// Mount a Git repository, as the parameters say.
    MountGit(Value),
}

/// What to do about a line from a client.
#[derive(Debug)]
pub enum Dispatch {
    /// Answer at once.
    Reply(Response),
    /// Do this, then answer the request with the number.
    Run(u64, MethodCall),
}

/// The parameters of a request.
pub open spec fn params_of(params: Option<Value>) -> Value {
    match params {
        Some(value) => value,
        None => Value::Null,
    }
}

/// The mount point that parameters name.
pub open spec fn mount_point_of(params: Option<Value>) -> Option<Seq<char>> {
    match params_of(params).field("mountpoint"@) {
        Some(value) => value.chars(),
        None => None,
    }
}

/// Whether a call, or an error, is what a method and its parameters ask for.
pub open spec fn routed(method: Seq<char>, params: Option<Value>, r: Result<MethodCall, String>) -> bool {
    if method == "list"@ {
        r == Ok::<MethodCall, String>(MethodCall::List)
    } else if method == "status"@ {
        match mount_point_of(params) {
            Some(text) => r matches Ok(MethodCall::Status(path)) && path@
                == vstd::utf8::encode_utf8(text),
            None => r matches Err(message) && message@ == "status requires `mountpoint`"@,
        }
    } else if method == "unmount"@ {
        match mount_point_of(params) {
            Some(text) => r matches Ok(MethodCall::Unmount(path)) && path@
                == vstd::utf8::encode_utf8(text),
            None => r matches Err(message) && message@ == "unmount requires `mountpoint`"@,
        }
    } else if method == "mount.s3"@ {
        r == Ok::<MethodCall, String>(MethodCall::MountS3(params_of(params)))
    } else if method == "mount.wiki"@ {
        r == Ok::<MethodCall, String>(MethodCall::MountWiki(params_of(params)))
    } else if method == "mount.git"@ {
        r == Ok::<MethodCall, String>(MethodCall::MountGit(params_of(params)))
    } else {
        r matches Err(message) && message@ == "unknown method `"@ + method + "`"@
    }
}

fn requested_mount_point(params: &Option<Value>) -> (r: Option<FsPath>)
    ensures
        match r {
            Some(path) => mount_point_of(*params) is Some && path@ == vstd::utf8::encode_utf8(
                mount_point_of(*params)->0,
            ),
            None => mount_point_of(*params) is None,
        },
{
    match params {
        None => None,
        Some(value) => match value.get("mountpoint") {
            None => None,
            Some(field) => match field.as_str() {
                None => None,
                Some(text) => Some(FsPath::from_text(text)),
            },
        },
    }
}

/// What a method with its parameters asks the daemon to do.
pub fn route(method: &str, params: Option<Value>) -> (r: Result<MethodCall, String>)
    ensures
        routed(method@, params, r),
{
    if same(method, "list") {
        return Ok(MethodCall::List);
    }
    if same(method, "status") {
        return match requested_mount_point(&params) {
            Some(path) => Ok(MethodCall::Status(path)),
            None => Err("status requires `mountpoint`".to_owned()),
        };
    }
    if same(method, "unmount") {
        return match requested_mount_point(&params) {
            Some(path) => Ok(MethodCall::Unmount(path)),
            None => Err("unmount requires `mountpoint`".to_owned()),
        };
    }
    let value: Value = match params {
        Some(value) => value,
        None => Value::Null,
    };
    if same(method, "mount.s3") {
        return Ok(MethodCall::MountS3(value));
    }
    if same(method, "mount.wiki") {
        return Ok(MethodCall::MountWiki(value));
    }
    if same(method, "mount.git") {
        return Ok(MethodCall::MountGit(value));
    }
    Err(join3("unknown method `", method, "`"))
}

/// What the daemon says of a request in another version.
pub open spec fn client_version_message(v: nat) -> Seq<char> {
    "protocol version mismatch: client v="@ + decimal(v) + ", daemon v="@ + decimal(
        PROTOCOL_VERSION as nat,
    )
}

/// Whether this is what to do about a line that was read as a request, or could
/// not be.
pub open spec fn dispatched(parsed: Result<Request, String>, d: Dispatch) -> bool {
    match parsed {
        Err(error) => d matches Dispatch::Reply(response) && response.fails_with(
            0,
            "invalid request: "@ + error@,
        ),
        Ok(request) => if request.v != PROTOCOL_VERSION {
            d matches Dispatch::Reply(response) && response.fails_with(
                request.id,
                client_version_message(request.v as nat),
            )
        } else {
            match d {
                Dispatch::Run(id, call) => id == request.id && routed(
                    request.method@,
                    request.params,
                    Ok::<MethodCall, String>(call),
                ),
                Dispatch::Reply(response) => exists|message: String|
                    routed(request.method@, request.params, Err::<MethodCall, String>(message))
                        && response.fails_with(request.id, message@),
            }
        },
    }
}

/// Decides what to do about a line from a client, which was read as a request or
/// could not be.
pub fn dispatch(parsed: Result<Request, String>) -> (r: Dispatch)
    ensures
        dispatched(parsed, r),
{
    match parsed {
        Err(error) => {
            let message = join2("invalid request: ", error.as_str());
            Dispatch::Reply(Response::err(0, message.as_str()))
        },
        Ok(request) => {
            if request.v != PROTOCOL_VERSION {
                let mut message = join2(
                    "protocol version mismatch: client v=",
                    decimal_text(request.v as u64).as_str(),
                );
                message.append(", daemon v=");
                message.append(decimal_text(PROTOCOL_VERSION as u64).as_str());
                return Dispatch::Reply(Response::err(request.id, message.as_str()));
            }
            match route(request.method.as_str(), request.params) {
                Ok(call) => Dispatch::Run(request.id, call),
                Err(message) => {
                    let response = Response::err(request.id, message.as_str());
                    assert(routed(
                        request.method@,
                        request.params,
                        Err::<MethodCall, String>(message),
                    ));
                    Dispatch::Reply(response)
                },
            }
        },
    }
}

/// The response to a request, given what came of it.
pub fn respond(id: u64, result: Result<Value, String>) -> (r: Response)
    ensures
        match result {
            Ok(value) => r == (Response {
                v: PROTOCOL_VERSION,
                id,
                result: Some(value),
                error: None,
            }),
            Err(message) => r.fails_with(id, message@),
        },
{
    match result {
        Ok(value) => Response::ok(id, value),
        Err(message) => Response::err(id, message.as_str()),
    }
}

/// Mounts of one instance use one buffer manager, and those of another instance
/// use another.
pub proof fn law_instances_share_nothing(daemon: Daemon, a: Seq<u8>, b: Seq<u8>)
    requires
        daemon.wf(),
        daemon.mounts().contains_key(a),
        daemon.mounts().contains_key(b),
    ensures
        daemon.mounts()[a].instance == daemon.mounts()[b].instance
            <==> daemon.managers()[daemon.mounts()[a].instance]
            == daemon.managers()[daemon.mounts()[b].instance],
{
}

/// The buffer manager of an instance lives exactly as long as one of its mounts:
/// when a mount ends, those of instances that are still mounted stay, and that
/// of its own instance goes with its last mount.
pub proof fn law_manager_lives_while_mounted(
    numbers: Map<Seq<char>, u64>,
    mounts: Map<Seq<u8>, MountRecord>,
    ended: Seq<char>,
    other: Seq<char>,
)
    ensures
        instance_used(mounts, other) && numbers.contains_key(other) ==> numbers_in_use(
            numbers,
            mounts,
            ended,
        ).contains_key(other) && numbers_in_use(numbers, mounts, ended)[other] == numbers[other],
        !instance_used(mounts, ended) ==> !numbers_in_use(numbers, mounts, ended).contains_key(
            ended,
        ),
{
}

/// A request in another version is never carried out: it is answered with an
/// error that repeats its number.
pub proof fn law_other_versions_are_refused(request: Request, d: Dispatch)
    requires
        request.v != PROTOCOL_VERSION,
        dispatched(Ok::<Request, String>(request), d),
    ensures
        d matches Dispatch::Reply(response) && response.id == request.id && response.error is Some,
{
}

/// A response in another version is never taken for a result.
pub proof fn law_other_versions_are_not_read(response: Response)
    requires
        response.v != PROTOCOL_VERSION,
    ensures
        crate::daemon::client::response_meaning(response) is Err,
{
}

/// The process ID is written before the daemon listens, and what is left of an
/// earlier daemon is removed in between.
pub proof fn law_startup_is_in_order(exists: bool)
    ensures
        startup_steps(exists).first() == StartupStep::WritePid,
        startup_steps(exists).last() == StartupStep::RestrictSocket,
        startup_steps(exists)[startup_steps(exists).len() - 2] == StartupStep::Bind,
        startup_steps(exists).contains(StartupStep::RemoveStaleSocket) <==> exists,
{
    if exists {
        assert(startup_steps(exists)[1] == StartupStep::RemoveStaleSocket);
    }
}

/// What the daemon answers is what the client gets: a result as it is, an error
/// with its message.
pub proof fn law_answers_reach_the_client(id: u64, value: Value, response: Response, message: Seq<
    char,
>)
    ensures
        crate::daemon::client::response_meaning(
            Response { v: PROTOCOL_VERSION, id, result: Some(value), error: None },
        ) == Ok::<Value, Seq<char>>(value),
        response.fails_with(id, message) ==> crate::daemon::client::response_meaning(response)
            == Err::<Value, Seq<char>>(message),
{
}

/// The mount point that a client puts into its request is the one that the
/// daemon reads there.
pub proof fn law_mount_point_reaches_the_daemon(params: Value, mount_point: Seq<char>)
    requires
        crate::daemon::client::names_mount_point(params, mount_point),
    ensures
        mount_point_of(Some(params)) == Some(mount_point),
{
    let entries = params->Object_0@;
    assert(crate::json::entry_from(entries, "mountpoint"@, 0) == Some(0int));
}

/// A request to mount is run as the mount of the backend that it names, with
/// exactly its parameters; without any, with the empty value.
pub proof fn law_mount_requests_carry_their_parameters(request: Request, params: Value, d: Dispatch)
    requires
        call_ensures(dispatch, (Ok::<Request, String>(request),), d),
        request.v == 1,
        request.params is Some ==> request.params == Some(params),
        request.params is None ==> params is Null,
    ensures
        request.method@ == "mount.git"@ ==> d == Dispatch::Run(
            request.id,
            MethodCall::MountGit(params),
        ),
        request.method@ == "mount.s3"@ ==> d == Dispatch::Run(
            request.id,
            MethodCall::MountS3(params),
        ),
        request.method@ == "mount.wiki"@ ==> d == Dispatch::Run(
            request.id,
            MethodCall::MountWiki(params),
        ),
{
    lemma_methods_differ();
}

proof fn lemma_methods_differ()
    ensures
        "list"@ != "status"@,
        "list"@ != "unmount"@,
        "list"@ != "mount.s3"@,
        "list"@ != "mount.wiki"@,
        "list"@ != "mount.git"@,
        "status"@ != "unmount"@,
        "status"@ != "mount.s3"@,
        "status"@ != "mount.wiki"@,
        "status"@ != "mount.git"@,
        "unmount"@ != "mount.s3"@,
        "unmount"@ != "mount.wiki"@,
        "unmount"@ != "mount.git"@,
        "mount.s3"@ != "mount.wiki"@,
        "mount.s3"@ != "mount.git"@,
        "mount.wiki"@ != "mount.git"@,
{
    reveal_strlit("list");
    reveal_strlit("status");
    reveal_strlit("unmount");
    reveal_strlit("mount.s3");
    reveal_strlit("mount.wiki");
    reveal_strlit("mount.git");
    assert("list"@[0] == 'l' && "status"@[0] == 's' && "unmount"@[0] == 'u');
    assert("mount.s3"@[6] == 's' && "mount.wiki"@[6] == 'w' && "mount.git"@[6] == 'g');
    assert("mount.s3"@[0] == 'm' && "mount.wiki"@[0] == 'm' && "mount.git"@[0] == 'm');
}

/// What a client asks about a mount point is what the daemon is asked to do: the
/// path that the client names is the one whose status is told, or that is
/// unmounted.
pub proof fn law_mount_point_requests_name_the_path(
    mount_point: &FsPath,
    shown: String,
    params: Value,
    request: Request,
    d: Dispatch,
)
    requires
        call_ensures(FsPath::display, (mount_point,), shown),
        vstd::utf8::valid_utf8(mount_point@),
        call_ensures(crate::daemon::client::mount_point_params, (mount_point,), params),
        request.v == 1,
        request.params == Some(params),
        call_ensures(dispatch, (Ok::<Request, String>(request),), d),
    ensures
        request.method@ == "status"@ ==> (d matches Dispatch::Run(id, MethodCall::Status(path))
            && id == request.id && path@ == mount_point@),
        request.method@ == "unmount"@ ==> (d matches Dispatch::Run(id, MethodCall::Unmount(path))
            && id == request.id && path@ == mount_point@),
{
    lemma_methods_differ();
    law_mount_point_reaches_the_daemon(params, utf8_lossy(mount_point@));
    vstd::utf8::decode_utf8_encode_utf8(mount_point@);
    if request.method@ == "status"@ || request.method@ == "unmount"@ {
        if let Dispatch::Reply(response) = d {
            let message = choose|message: String|
                routed(request.method@, request.params, Err::<MethodCall, String>(message))
                    && response.fails_with(request.id, message@);
            assert(routed(request.method@, request.params, Err::<MethodCall, String>(message)));
        }
    }
}

/// A request for the list is run as such, whatever its parameters.
pub proof fn law_list_requests_are_run(request: Request, d: Dispatch)
    requires
        call_ensures(dispatch, (Ok::<Request, String>(request),), d),
        request.v == 1,
        request.method@ == "list"@,
    ensures
        d == Dispatch::Run(request.id, MethodCall::List),
{
    lemma_methods_differ();
    if let Dispatch::Reply(response) = d {
        let message = choose|message: String|
            routed(request.method@, request.params, Err::<MethodCall, String>(message))
                && response.fails_with(request.id, message@);
        assert(routed(request.method@, request.params, Err::<MethodCall, String>(message)));
    }
}

/// What cannot be read, is in another version, names no mount point where one is
/// needed or names no method is answered with an error that says so, under the
/// number of the request, or under 0 where there is none.
pub proof fn law_bad_requests_are_answered(parsed: Result<Request, String>, d: Dispatch)
    requires
        call_ensures(dispatch, (parsed,), d),
    ensures
        parsed matches Err(error) ==> (d matches Dispatch::Reply(response) && response.id == 0
            && response.v == 1 && response.result is None && response.error is Some
            && response.error->0.message@ == "invalid request: "@ + error@),
        parsed matches Ok(request) ==> {
            &&& request.v != 1 ==> (d matches Dispatch::Reply(response)
                && response.id == request.id && response.v == 1
                && response.result is None && response.error is Some
                && response.error->0.message@ == "protocol version mismatch: client v="@ + decimal(
                request.v as nat,
            ) + ", daemon v="@ + decimal(1))
            &&& request.v == 1 && request.params is None && (request.method@
                == "status"@ || request.method@ == "unmount"@) ==> (d matches Dispatch::Reply(
                response,
            ) && response.id == request.id && response.result is None && response.error is Some
                && response.error->0.message@ == request.method@ + " requires `mountpoint`"@)
            &&& request.v == 1 && request.method@ != "list"@ && request.method@
                != "status"@ && request.method@ != "unmount"@ && request.method@ != "mount.s3"@
                && request.method@ != "mount.wiki"@ && request.method@ != "mount.git"@ ==> (
            d matches Dispatch::Reply(response) && response.id == request.id
                && response.result is None && response.error is Some
                && response.error->0.message@ == "unknown method `"@ + request.method@ + "`"@)
        },
{
    lemma_methods_differ();
    reveal_strlit("status");
    reveal_strlit("unmount");
    reveal_strlit(" requires `mountpoint`");
    reveal_strlit("status requires `mountpoint`");
    reveal_strlit("unmount requires `mountpoint`");
    assert("status"@ + " requires `mountpoint`"@ =~= "status requires `mountpoint`"@);
    assert("unmount"@ + " requires `mountpoint`"@ =~= "unmount requires `mountpoint`"@);
    if let Ok(request) = parsed {
        assert(mount_point_of(None) is None);
    }
}

/// What came of a request is what the client gets: a result as it is, an error
/// with its message, under the number of the request.
pub proof fn law_answers_arrive(
    id: u64,
    result: Result<Value, String>,
    response: Response,
    received: Result<Value, String>,
)
    requires
        call_ensures(respond, (id, result), response),
        call_ensures(crate::daemon::client::accept_response, (response,), received),
    ensures
        response.id == id,
        response.v == 1,
        result matches Ok(value) ==> received == Ok::<Value, String>(value),
        result matches Err(message) ==> (received matches Err(told) && told@ == message@),
{
}

/// A mount point that is free can be mounted; then the register holds the mount
/// as it was asked for and every other one as before. One that is in use stays as
/// it is, and the error names it.
pub proof fn law_mounts_are_entered(
    daemon: &mut Daemon,
    backend: &str,
    instance: &InstanceHash,
    mount_point: &FsPath,
    now: u64,
    r: Result<SharedManager, String>,
    key: Seq<u8>,
)
    requires
        call_ensures(Daemon::start_mount, (daemon, backend, instance, mount_point, now), r),
    ensures
        r is Ok <==> !old(daemon).mounts().contains_key(normal(mount_point@)),
        r is Ok ==> final(daemon).mounts().contains_key(normal(mount_point@)),
        r is Ok ==> final(daemon).mounts()[normal(mount_point@)].backend == backend@,
        r is Ok ==> final(daemon).mounts()[normal(mount_point@)].instance == instance.name(),
        r is Ok ==> final(daemon).mounts()[normal(mount_point@)].mount_point == mount_point@,
        r is Ok ==> final(daemon).mounts()[normal(mount_point@)].started_at == now,
        key != normal(mount_point@) ==> (final(daemon).mounts().contains_key(key) <==> old(daemon).mounts().contains_key(key)) && final(daemon).mounts()[key] == old(daemon).mounts()[key],
        r matches Err(message) ==> message@ == "mount already active at "@ + utf8_lossy(
            mount_point@,
        ) && final(daemon).mounts() == old(daemon).mounts(),
{
}

/// A mount gets the buffer manager that its instance has, and a new one with a
/// number of its own where it has none.
pub proof fn law_instances_have_one_manager(
    daemon: &mut Daemon,
    instance: &InstanceHash,
    r: SharedManager,
    other: Seq<char>,
)
    requires
        old(daemon).wf(),
        call_ensures(Daemon::shared_buffer_manager, (daemon, instance), r),
    ensures
        final(daemon).managers().contains_key(instance.name()),
        final(daemon).managers()[instance.name()] == r.number,
        old(daemon).managers().contains_key(instance.name()) ==> !r.created && r.number == old(daemon).managers()[instance.name()],
        !old(daemon).managers().contains_key(instance.name()) ==> r.created,
        other != instance.name() && old(daemon).managers().contains_key(other) ==> final(daemon).managers().contains_key(other) && final(daemon).managers()[other] == old(daemon).managers()[other] && r.number != old(daemon).managers()[other],
        final(daemon).mounts() == old(daemon).mounts(),
{
}

/// A mount that ended is not in the register any more, and every other one is as
/// before. The buffer manager of an instance that is still mounted stays.
pub proof fn law_mounts_are_taken_out(
    daemon: &mut Daemon,
    mount_point: &FsPath,
    instance: &str,
    key: Seq<u8>,
    other: Seq<char>,
)
    requires
        call_ensures(Daemon::end_mount, (daemon, mount_point, instance), ()),
    ensures
        final(daemon).mounts().contains_key(key) <==> old(daemon).mounts().contains_key(key) && key
            != normal(mount_point@),
        final(daemon).mounts().contains_key(key) ==> final(daemon).mounts()[key] == old(daemon).mounts()[key],
        old(daemon).managers().contains_key(other) && other != instance@ ==> final(daemon).managers().contains_key(other) && final(daemon).managers()[other] == old(daemon).managers()[other],
        old(daemon).managers().contains_key(instance@) && final(daemon).mounts().contains_key(key)
            && final(daemon).mounts()[key].instance == instance@ ==> final(daemon).managers().contains_key(instance@),
        (forall|k: Seq<u8>| #[trigger]
            final(daemon).mounts().contains_key(k) ==> final(daemon).mounts()[k].instance
                != instance@) ==> !final(daemon).managers().contains_key(instance@),
{
    if final(daemon).mounts().contains_key(key) && final(daemon).mounts()[key].instance
        == instance@ {
        assert(instance_used(final(daemon).mounts(), instance@));
    }
}

/// The status of a mount point tells its mount exactly where there is one: its
/// backend, instance and path, and the whole seconds since it started.
pub proof fn law_status_tells_the_mount(
    daemon: Daemon,
    mount_point: &FsPath,
    now: u64,
    status: StatusResult,
    summary: Option<MountSummary>,
)
    requires
        call_ensures(Daemon::status, (&daemon, mount_point, now), status),
        call_ensures(Daemon::mount_summary, (&daemon, mount_point, now), summary),
    ensures
        status.dirty_files == 0,
        status.cache_hit_ratio is None,
        status.mount is Some <==> daemon.mounts().contains_key(normal(mount_point@)),
        summary is Some <==> status.mount is Some,
        status.mount matches Some(told) ==> {
            let record = daemon.mounts()[normal(mount_point@)];
            &&& told.backend@ == record.backend
            &&& told.instance@ == record.instance
            &&& told.mount_point@ == record.mount_point
            &&& now < record.started_at ==> told.age_secs == 0
            &&& now >= record.started_at ==> told.age_secs * 1_000_000_000 <= now
                - record.started_at < (told.age_secs + 1) * 1_000_000_000
            &&& summary->0.backend@ == told.backend@
            &&& summary->0.instance@ == told.instance@
            &&& summary->0.mount_point@ == told.mount_point@
            &&& summary->0.age_secs == told.age_secs
        },
{
}

/// The list tells every mount.
pub proof fn law_list_tells_every_mount(daemon: Daemon, now: u64, list: ListResult, key: Seq<u8>)
    requires
        call_ensures(Daemon::list_mounts, (&daemon, now), list),
        daemon.mounts().contains_key(key),
    ensures
        exists|i: int|
            {
                &&& 0 <= i < list.mounts@.len()
                &&& (#[trigger] list.mounts@[i]).backend@ == daemon.mounts()[key].backend
                &&& list.mounts@[i].instance@ == daemon.mounts()[key].instance
                &&& list.mounts@[i].mount_point@ == daemon.mounts()[key].mount_point
                &&& now >= daemon.mounts()[key].started_at ==> list.mounts@[i].age_secs
                    * 1_000_000_000 <= now - daemon.mounts()[key].started_at < (
                list.mounts@[i].age_secs + 1) * 1_000_000_000
            },
{
    let keys = choose|keys: Seq<Seq<u8>>|
        summaries_under(list.mounts@, keys, daemon.mounts(), now);
    assert(summaries_under(list.mounts@, keys, daemon.mounts(), now));
    assert(keys.contains(key));
    let i = choose|i: int| 0 <= i < keys.len() && keys[i] == key;
    assert(tells_mount(list.mounts@[i], daemon.mounts()[keys[i]], now));
}

/// The list tells nothing but mounts, each once.
pub proof fn law_list_tells_only_mounts(daemon: Daemon, now: u64, list: ListResult, i: int, j: int)
    requires
        daemon.wf(),
        call_ensures(Daemon::list_mounts, (&daemon, now), list),
        0 <= i < list.mounts@.len(),
        0 <= j < list.mounts@.len(),
    ensures
        daemon.mounts().contains_key(normal(list.mounts@[i].mount_point@)),
        i != j ==> normal(list.mounts@[i].mount_point@) != normal(list.mounts@[j].mount_point@),
{
    let keys = choose|keys: Seq<Seq<u8>>|
        summaries_under(list.mounts@, keys, daemon.mounts(), now);
    assert(summaries_under(list.mounts@, keys, daemon.mounts(), now));
    assert(daemon.mounts().contains_key(keys[i]) && tells_mount(
        list.mounts@[i],
        daemon.mounts()[keys[i]],
        now,
    ));
    assert(daemon.mounts().contains_key(keys[j]) && tells_mount(
        list.mounts@[j],
        daemon.mounts()[keys[j]],
        now,
    ));
    if i < j {
        assert(keys[i] != keys[j]);
    } else if j < i {
        assert(keys[j] != keys[i]);
    }
}

/// A mount can be unmounted exactly where it is in the register, and the unmount
/// is waited for until it is gone from there or the time is over.
pub proof fn law_unmounts_are_waited_for(
    daemon: Daemon,
    mount_point: &FsPath,
    checked: Result<(), String>,
    now: u64,
    deadline: u64,
    wait: UnmountWait,
)
    requires
        call_ensures(Daemon::check_unmount, (&daemon, mount_point), checked),
        call_ensures(Daemon::await_unmount, (&daemon, mount_point, now, deadline), wait),
    ensures
        checked is Ok <==> daemon.mounts().contains_key(normal(mount_point@)),
        checked matches Err(message) ==> message@ == "no active mount at "@ + utf8_lossy(
            mount_point@,
        ),
        wait is Done <==> checked is Err,
        wait is GiveUp <==> checked is Ok && now >= deadline,
{
}

/// A new register is empty, and the count is that of the mounts.
pub proof fn law_register_begins_empty(daemon: Daemon, count: usize, key: Seq<u8>)
    requires
        call_ensures(Daemon::new, (), daemon),
        call_ensures(Daemon::mount_count, (&daemon,), count),
    ensures
        !daemon.mounts().contains_key(key),
        count == 0,
{
}

/// A daemon that runs is not replaced; else the process ID is written first, a
/// socket that is left over is removed before the daemon listens, and access is
/// restricted last.
pub proof fn law_startup_replaces_no_running_daemon(
    socket: &FsPath,
    present: bool,
    answers: bool,
    r: Result<Vec<StartupStep>, String>,
)
    requires
        call_ensures(plan_startup, (socket, present, answers), r),
    ensures
        r is Err <==> present && answers,
        r matches Err(message) ==> message@ == "daemon already running at "@ + utf8_lossy(socket@),
        r matches Ok(steps) ==> {
            &&& present ==> steps@ == seq![
                StartupStep::WritePid,
                StartupStep::RemoveStaleSocket,
                StartupStep::Bind,
                StartupStep::RestrictSocket,
            ]
            &&& !present ==> steps@ == seq![
                StartupStep::WritePid,
                StartupStep::Bind,
                StartupStep::RestrictSocket,
            ]
        },
{
}

/// The daemon serves every client, goes on after a failed connection, and stops
/// only when it is told to.
pub proof fn law_daemon_serves_until_told(event: ServeEvent, action: ServeAction)
    requires
        call_ensures(serve_action, (event,), action),
    ensures
        action is Stop <==> event is Shutdown,
        action is ServeClient <==> event is Connected,
        event is AcceptFailed ==> action == ServeAction::Pause(50),
{
}

/// A Git mount's instance goes by the backend, the source and the branch.
pub proof fn law_git_instance_goes_by_source_and_branch(config: &GitConfig, r: InstanceHash)
    requires
        call_ensures(git_instance_hash, (config,), r),
    ensures
        r.name() == crate::persistent_cache::hash_name(
            crate::persistent_cache::joined_parts(seq!["git"@, config.source@, config.branch@]),
        ),
{
}

/// Of several outcomes the first error is told, and success only where there is
/// none.
pub proof fn law_first_error_is_told(
    results: &Vec<Result<(), String>>,
    r: Result<(), String>,
    i: int,
)
    requires
        call_ensures(first_error, (results,), r),
        0 <= i < results@.len(),
        forall|j: int| 0 <= j < i ==> (#[trigger] results@[j]) is Ok,
    ensures
        results@[i] is Err ==> r is Err && r->Err_0@ == results@[i]->Err_0@,
        i == results@.len() - 1 && results@[i] is Ok ==> r is Ok,
{
    if let Err(message) = r {
        let k = choose|k: int|
            {
                &&& 0 <= k < results@.len()
                &&& (#[trigger] results@[k]) is Err
                &&& results@[k]->Err_0@ == message@
                &&& forall|j: int| 0 <= j < k ==> (#[trigger] results@[j]) is Ok
            };
        assert(results@[k] is Err);
        assert(k >= i);
    }
}

/// A line from a client holds a request unless it is empty but for line ends.
pub proof fn law_empty_lines_are_passed_over(line: &str, text: String, r: Option<String>)
    requires
        call_ensures(request_line, (line,), r),
        call_ensures(trim_line_end, (line,), text),
    ensures
        r is None <==> text@.len() == 0,
        r matches Some(request) ==> request@ == text@,
{
}

/// The buffer manager of an instance goes where none of the mounts is of that
/// instance, and stays where one is; mounts and the managers of other instances
/// stay in any case.
pub proof fn law_idle_managers_go(d: &mut Daemon, instance: &str, other: Seq<char>, key: Seq<u8>)
    requires
        old(d).wf(),
        call_ensures(Daemon::drop_buffer_manager_if_idle, (d, instance), ()),
        other != instance@,
    ensures
        final(d).mounts() == old(d).mounts(),
        final(d).next_number() == old(d).next_number(),
        final(d).managers().contains_key(other) <==> old(d).managers().contains_key(other),
        old(d).managers().contains_key(other) ==> final(d).managers()[other] == old(d).managers()[other],
        old(d).mounts().contains_key(key) && old(d).mounts()[key].instance == instance@
            ==> final(d).managers() == old(d).managers(),
        (forall|k: Seq<u8>| #[trigger]
            old(d).mounts().contains_key(k) ==> old(d).mounts()[k].instance != instance@)
            ==> !final(d).managers().contains_key(instance@),
{
}

/// There is a number left for a buffer manager until the last one is reached.
pub proof fn law_numbers_are_left(daemon: Daemon, r: bool)
    requires
        call_ensures(Daemon::has_numbers, (&daemon,), r),
    ensures
        r <==> daemon.next_number() < u64::MAX,
{
}

} // verus!
