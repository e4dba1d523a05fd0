//! The topology cache: sites and their devices, merged in and never removed.
use vstd::prelude::*;

use crate::models::{opt_text, CachedDevice, CachedSite, Device, DeviceView, Site, SiteView, copy_opt_string};

verus! {

/// No two sites share an id.
pub open spec fn unique_site_ids(s: Seq<SiteView>) -> bool {
    forall|i: int, j: int|
        0 <= i < s.len() && 0 <= j < s.len() && i != j ==> #[trigger] s[i].id != #[trigger] s[j].id
}

/// No two devices share an id.
pub open spec fn unique_device_ids(d: Seq<DeviceView>) -> bool {
    forall|i: int, j: int|
        0 <= i < d.len() && 0 <= j < d.len() && i != j ==> #[trigger] d[i].id != #[trigger] d[j].id
}

/// A site with id `id` is among `s`.
pub open spec fn has_site(s: Seq<SiteView>, id: Seq<char>) -> bool {
    exists|i: int| 0 <= i < s.len() && #[trigger] s[i].id == id
}

/// A device with id `id` is among `d`.
pub open spec fn has_device(d: Seq<DeviceView>, id: Seq<char>) -> bool {
    exists|i: int| 0 <= i < d.len() && #[trigger] d[i].id == id
}

/// A newly seen site: its identity and no devices.
pub open spec fn new_site_view(site: Site) -> SiteView {
    SiteView { id: site.id@, name: site.name@, devices: Seq::empty() }
}

/// The sites after merging `incoming` in order: a site whose id is already
/// there is ignored, an unseen one is appended with no devices.
pub open spec fn merge_sites(s: Seq<SiteView>, incoming: Seq<Site>) -> Seq<SiteView>
    decreases incoming.len(),
{
    if incoming.len() == 0 {
        s
    } else {
        let prev = merge_sites(s, incoming.drop_last());
        if has_site(prev, incoming.last().id@) {
            prev
        } else {
            prev.push(new_site_view(incoming.last()))
        }
    }
}

/// What the cache keeps of a reported device.
pub open spec fn device_view_of(d: Device) -> DeviceView {
    DeviceView {
        id: d.id@,
        name: d.name@,
        model: d.model@,
        ip_address: opt_text(d.ip_address),
        state: d.state@,
    }
}

/// The devices after inserting `d`, or overwriting the device with its id.
pub open spec fn upsert_device(devs: Seq<DeviceView>, d: DeviceView) -> Seq<DeviceView> {
    if has_device(devs, d.id) {
        devs.update(choose|i: int| 0 <= i < devs.len() && #[trigger] devs[i].id == d.id, d)
    } else {
        devs.push(d)
    }
}

/// The devices after upserting each of `incoming` in order.
pub open spec fn merge_devices(devs: Seq<DeviceView>, incoming: Seq<Device>) -> Seq<DeviceView>
    decreases incoming.len(),
{
    if incoming.len() == 0 {
        devs
    } else {
        upsert_device(merge_devices(devs, incoming.drop_last()), device_view_of(incoming.last()))
    }
}

/// The sites after merging `incoming` into the site with id `site_id`; the
/// same sites when there is no such site.
pub open spec fn merge_site_devices(s: Seq<SiteView>, site_id: Seq<char>, incoming: Seq<Device>) -> Seq<SiteView> {
    if has_site(s, site_id) {
        let i = choose|i: int| 0 <= i < s.len() && #[trigger] s[i].id == site_id;
        s.update(i, SiteView { devices: merge_devices(s[i].devices, incoming), ..s[i] })
    } else {
        s
    }
}

/// The cached topology. Sites and devices are only ever added or updated.
pub struct UnifiCache {
    sites: Vec<CachedSite>,
}

impl View for UnifiCache {
    type V = Seq<SiteView>;

    closed spec fn view(&self) -> Seq<SiteView> {
        self.sites@.map_values(|c: CachedSite| c@)
    }
}

proof fn lemma_upsert_unique(devs: Seq<DeviceView>, d: DeviceView)
    requires
        unique_device_ids(devs),
    ensures
        unique_device_ids(upsert_device(devs, d)),
        has_device(upsert_device(devs, d), d.id),
{
    if has_device(devs, d.id) {
        let k = choose|i: int| 0 <= i < devs.len() && #[trigger] devs[i].id == d.id;
        assert(upsert_device(devs, d)[k] == d);
    } else {
        assert(upsert_device(devs, d)[devs.len() as int] == d);
    }
}

impl UnifiCache {
    /// Site ids are unique, and so are device ids within each site.
    pub open spec fn wf(&self) -> bool {
        &&& unique_site_ids(self@)
        &&& forall|i: int| 0 <= i < self@.len() ==> unique_device_ids(#[trigger] self@[i].devices)
    }

    /// An empty cache.
    pub fn new() -> (r: UnifiCache)
        ensures
            r.wf(),
            r@ == Seq::<SiteView>::empty(),
    {
        let r = UnifiCache { sites: Vec::new() };
        assert(r@ =~= Seq::<SiteView>::empty());
        r
    }

    fn find_site(&self, id: &String) -> (r: Option<usize>)
        requires
            self.wf(),
        ensures
            match r {
                Some(i) => i < self@.len() && self@[i as int].id == id@,
                None => !has_site(self@, id@),
            },
    {
        let mut i: usize = 0;
        while i < self.sites.len()
            invariant
                i <= self.sites.len(),
                self@.len() == self.sites@.len(),
                forall|j: int| 0 <= j < i ==> (#[trigger] self@[j]).id != id@,
            decreases self.sites.len() - i,
        {
            assert(self@[i as int] == self.sites@[i as int]@);
            if self.sites[i].id == *id {
                return Some(i);
            }
            i = i + 1;
        }
        None
    }

    /// Merges `sites` in order: an unseen site is added with no devices; a
    /// site already cached, with its devices, is left as it is.
    pub fn update_sites(&mut self, sites: Vec<Site>)
        requires
            old(self).wf(),
        ensures
            final(self).wf(),
            final(self)@ == merge_sites(old(self)@, sites@),
    {
        let mut i: usize = 0;
        while i < sites.len()
            invariant
                i <= sites.len(),
                self.wf(),
                self@ == merge_sites(old(self)@, sites@.take(i as int)),
            decreases sites.len() - i,
        {
            let ghost prev = self@;
            assert(sites@.take(i as int + 1).drop_last() =~= sites@.take(i as int));
            assert(sites@.take(i as int + 1).last() == sites@[i as int]);
            let site = &sites[i];
            match self.find_site(&site.id) {
                Some(_) => {},
                None => {
                    let cached = CachedSite {
                        id: site.id.clone(),
                        name: site.name.clone(),
                        devices: Vec::new(),
                    };
                    assert(cached@.devices =~= Seq::<DeviceView>::empty());
                    self.sites.push(cached);
                    assert(self@ =~= prev.push(new_site_view(sites@[i as int])));
                },
            }
            i = i + 1;
        }
        assert(sites@.take(i as int) =~= sites@);
    }

    /// Inserts each of `devices` into the site `site_id`, overwriting a
    /// cached device with the same id; devices not among them stay. Nothing
    /// changes when `site_id` is not cached.
    pub fn update_devices(&mut self, site_id: &str, devices: Vec<Device>)
        requires
            old(self).wf(),
        ensures
            final(self).wf(),
            final(self)@ == merge_site_devices(old(self)@, site_id@, devices@),
    {
        let id = site_id.to_owned();
        let found = self.find_site(&id);
        match found {
            None => {},
            Some(k) => {
                let ghost s0 = self@;
                let mut site = self.sites[k].copy();
                let mut j: usize = 0;
                while j < devices.len()
                    invariant
                        j <= devices.len(),
                        unique_device_ids(site@.devices),
                        site@.id == s0[k as int].id,
                        site@.name == s0[k as int].name,
                        site@.devices == merge_devices(s0[k as int].devices, devices@.take(j as int)),
                    decreases devices.len() - j,
                {
                    assert(devices@.take(j as int + 1).drop_last() =~= devices@.take(j as int));
                    assert(devices@.take(j as int + 1).last() == devices@[j as int]);
                    let d = &devices[j];
                    let cached = CachedDevice {
                        id: d.id.clone(),
                        name: d.name.clone(),
                        model: d.model.clone(),
                        ip_address: copy_opt_string(&d.ip_address),
                        state: d.state.clone(),
                    };
                    Self::upsert_cached_device(&mut site, cached);
                    proof {
                        lemma_upsert_unique(
                            merge_devices(s0[k as int].devices, devices@.take(j as int)),
                            device_view_of(devices@[j as int]),
                        );
                    }
                    j = j + 1;
                }
                assert(devices@.take(j as int) =~= devices@);
                self.sites.set(k, site);
                proof {
                    let c = choose|i: int| 0 <= i < s0.len() && #[trigger] s0[i].id == site_id@;
                    assert(c == k);
                    assert(self@ =~= merge_site_devices(s0, site_id@, devices@));
                }
            },
        }
    }

    fn upsert_cached_device(site: &mut CachedSite, d: CachedDevice)
        requires
            unique_device_ids(old(site)@.devices),
        ensures
            final(site)@.id == old(site)@.id,
            final(site)@.name == old(site)@.name,
            final(site)@.devices == upsert_device(old(site)@.devices, d@),
    {
        let ghost s0 = site@.devices;
        let mut i: usize = 0;
        while i < site.devices.len()
            invariant
                i <= site.devices.len(),
                site@.devices == s0,
                s0 == old(site)@.devices,
                site@.id == old(site)@.id,
                site@.name == old(site)@.name,
                unique_device_ids(s0),
                forall|j: int| 0 <= j < i ==> (#[trigger] s0[j]).id != d@.id,
            decreases site.devices.len() - i,
        {
            assert(s0[i as int] == site.devices@[i as int]@);
            if site.devices[i].id == d.id {
                site.devices.set(i, d);
                proof {
                    assert(s0[i as int].id == d@.id);
                    let c = choose|x: int| 0 <= x < s0.len() && #[trigger] s0[x].id == d@.id;
                    assert(c == i);
                    assert(site@.devices =~= upsert_device(s0, d@));
                }
                return;
            }
            i = i + 1;
        }
        site.devices.push(d);
        assert(site@.devices =~= upsert_device(s0, d@));
    }

    /// A copy of every cached site and its devices, independent of the cache.
    pub fn get_sites(&self) -> (r: Vec<CachedSite>)
        ensures
            r@.map_values(|c: CachedSite| c@) == self@,
    {
        let mut out: Vec<CachedSite> = Vec::new();
        let mut i: usize = 0;
        while i < self.sites.len()
            invariant
                i <= self.sites.len(),
                out.len() == i,
                forall|j: int| 0 <= j < i ==> (#[trigger] out@[j])@ == self.sites@[j]@,
            decreases self.sites.len() - i,
        {
            out.push(self.sites[i].copy());
            i = i + 1;
        }
        assert(out@.map_values(|c: CachedSite| c@) =~= self@);
        out
    }
}

/// Merging sites never changes or reorders a site already cached; it only
/// appends.
pub proof fn lemma_merge_sites_extends(s: Seq<SiteView>, incoming: Seq<Site>)
    ensures
        merge_sites(s, incoming).len() >= s.len(),
        forall|i: int| 0 <= i < s.len() ==> #[trigger] merge_sites(s, incoming)[i] == s[i],
    decreases incoming.len(),
{
    if incoming.len() > 0 {
        lemma_merge_sites_extends(s, incoming.drop_last());
    }
}

/// Merging a second batch of sites, whose ids may overlap the first, leaves
/// every site of the first merge, with its devices, as it was.
pub proof fn law_merge_sites_twice(s: Seq<SiteView>, first: Seq<Site>, second: Seq<Site>)
    ensures
        merge_sites(merge_sites(s, first), second).len() >= merge_sites(s, first).len(),
        forall|i: int|
            0 <= i < merge_sites(s, first).len() ==> (#[trigger] merge_sites(merge_sites(s, first), second)[i])
                == merge_sites(s, first)[i],
{
    lemma_merge_sites_extends(merge_sites(s, first), second);
}

} // verus!
