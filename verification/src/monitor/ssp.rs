//! The SSP check: request templates, the rules that match plans to a
//! template, and the templates generated per tag.
use vstd::prelude::*;
use crate::text::{debug_str, debug_text, concat, i64_to_string, decimal_int, clone_strings};
use super::error::{Error, BadRequest, InternalServer, is_error};
use super::model::{
    ClientType, DeviceIDType, MediaType, NetworkType, OSType, Size, Version, os_type_name,
};
use super::plan::{Plan, AdConfig, AdConfigRule, RuleView, rule_views, same_plan, is_tag_rule};
use super::strategy::{StrategyConfig, first_app_version};

verus! {

broadcast use vstd::string::group_string_axioms;

/// The DSP slot id under which the SSP check matches plans.
pub const SSP_CHECK_DSP_SLOT_ID: i32 = 336583;

/// The SSP check.
pub struct SspMonitor {}

impl SspMonitor {
    /// The check's name.
    pub fn name(&self) -> (s: &'static str)
        ensures
            s@ == "SSP"@,
    {
        proof {
            reveal_strlit("SSP");
        }
        "SSP"
    }
}

/// A key and a value.
#[derive(Debug, Default)]
pub struct KV {
    pub key: String,
    pub value: String,
}

impl Clone for KV {
    fn clone(&self) -> (r: Self)
        ensures
            r == *self,
    {
        KV { key: self.key.clone(), value: self.value.clone() }
    }
}

/// What `{:?}` writes for a `KV`.
pub open spec fn kv_debug(kv: KV) -> Seq<char> {
    "KV { key: "@ + debug_text(kv.key@) + ", value: "@ + debug_text(kv.value@) + " }"@
}

impl KV {
    /// The text that `{:?}` writes for this pair.
    pub fn debug_text(&self) -> (s: String)
        ensures
            s@ == kv_debug(*self),
    {
        let k = debug_str(self.key.as_str());
        let v = debug_str(self.value.as_str());
        let s = concat("KV { key: ", k.as_str());
        let s = concat(s.as_str(), ", value: ");
        let s = concat(s.as_str(), v.as_str());
        concat(s.as_str(), " }")
    }
}

/// A copy of a list of pairs.
pub fn clone_kvs(v: &Vec<KV>) -> (r: Vec<KV>)
    ensures
        r@ == v@,
{
    let mut out: Vec<KV> = Vec::new();
    let mut i: usize = 0;
    while i < v.len()
        invariant
            i <= v@.len(),
            out@ == v@.take(i as int),
        decreases v@.len() - i,
    {
        out.push(v[i].clone());
        assert(out@ =~= v@.take(i + 1));
        i = i + 1;
    }
    assert(out@ =~= v@);
    out
}

/// A copy of an optional string.
pub fn clone_opt_string(s: &Option<String>) -> (r: Option<String>)
    ensures
        r == *s,
{
    match s {
        Some(v) => Some(v.clone()),
        None => None,
    }
}

/// The ad slot of a request; floats are held as their bits.
pub struct AdSlot {
    pub id: i32,
    pub size: Size,
    pub need_render: i32,
    pub scode: String,
    pub tags: Vec<KV>,
    pub rules: Vec<KV>,
}

impl View for AdSlot {
    type V = (i32, Size, i32, String, Seq<KV>, Seq<KV>);

    open spec fn view(&self) -> Self::V {
        (self.id, self.size, self.need_render, self.scode, self.tags@, self.rules@)
    }
}

impl Clone for AdSlot {
    fn clone(&self) -> (r: Self)
        ensures
            r@ == self@,
    {
        AdSlot {
            id: self.id,
            size: self.size,
            need_render: self.need_render,
            scode: self.scode.clone(),
            tags: clone_kvs(&self.tags),
            rules: clone_kvs(&self.rules),
        }
    }
}

/// Where the device is: longitude and latitude are the bits of `f32`s.
#[derive(Debug, Clone, Copy, PartialEq, Eq, Structural, Default)]
pub struct Location {
    pub typ: i32,
    pub longitude: u32,
    pub latitude: u32,
    pub timestamp: i64,
    pub source: i32,
}

/// The client that asks.
#[derive(Debug, Clone, Copy, PartialEq, Eq, Structural, Default)]
pub struct Client {
    pub typ: ClientType,
    pub version: Version,
}

/// The device's network.
pub struct Network {
    pub typ: NetworkType,
    pub imsi: Option<String>,
    pub cellular_id: Option<String>,
    pub cellular_operator: Option<i32>,
}

impl Clone for Network {
    fn clone(&self) -> (r: Self)
        ensures
            r == *self,
    {
        Network {
            typ: self.typ,
            imsi: clone_opt_string(&self.imsi),
            cellular_id: clone_opt_string(&self.cellular_id),
            cellular_operator: self.cellular_operator,
        }
    }
}

/// The medium that shows the ad.
pub struct Media {
    pub typ: MediaType,
    pub app: Option<MediaApp>,
    pub site: Option<MediaSite>,
}

impl View for Media {
    type V = (MediaType, Option<MediaApp>, Option<(String, String, String, Seq<String>)>);

    open spec fn view(&self) -> Self::V {
        (self.typ, self.app, match self.site {
            Some(s) => Some(s@),
            None => None,
        })
    }
}

impl Clone for Media {
    fn clone(&self) -> (r: Self)
        ensures
            r@ == self@,
    {
        let app = match &self.app {
            Some(a) => Some(a.clone()),
            None => None,
        };
        let site = match &self.site {
            Some(s) => Some(s.clone()),
            None => None,
        };
        Media { typ: self.typ, app, site }
    }
}

/// An app medium.
pub struct MediaApp {
    pub package_name: String,
    pub channel_id: String,
    pub version: Version,
}

impl Clone for MediaApp {
    fn clone(&self) -> (r: Self)
        ensures
            r == *self,
    {
        MediaApp {
            package_name: self.package_name.clone(),
            channel_id: self.channel_id.clone(),
            version: self.version,
        }
    }
}

/// A web medium.
pub struct MediaSite {
    pub domain: String,
    pub url: String,
    pub title: String,
    pub keywords: Vec<String>,
}

impl View for MediaSite {
    type V = (String, String, String, Seq<String>);

    open spec fn view(&self) -> Self::V {
        (self.domain, self.url, self.title, self.keywords@)
    }
}

impl Clone for MediaSite {
    fn clone(&self) -> (r: Self)
        ensures
            r@ == self@,
    {
        MediaSite {
            domain: self.domain.clone(),
            url: self.url.clone(),
            title: self.title.clone(),
            keywords: clone_strings(&self.keywords),
        }
    }
}

/// The device: the screen density is held as the bits of an `f32`.
pub struct Device {
    pub typ: i32,
    pub ids: DeviceIDs,
    pub os_type: OSType,
    pub os_version: Version,
    pub brand: String,
    pub model: String,
    pub screen_size: Size,
    pub screen_density: u32,
    pub dzh_user: String,
}

/// The device fields other than its ids.
pub type DeviceRest = (i32, OSType, Version, String, String, Size, u32, String);

impl Device {
    /// The device's fields other than its ids.
    pub open spec fn rest(&self) -> DeviceRest {
        (self.typ, self.os_type, self.os_version, self.brand, self.model, self.screen_size,
            self.screen_density, self.dzh_user)
    }
}

impl View for Device {
    type V = (Seq<DeviceID>, DeviceRest);

    open spec fn view(&self) -> Self::V {
        (self.ids.0@, self.rest())
    }
}

impl Clone for Device {
    fn clone(&self) -> (r: Self)
        ensures
            r@ == self@,
    {
        Device {
            typ: self.typ,
            ids: self.ids.clone(),
            os_type: self.os_type,
            os_version: self.os_version,
            brand: self.brand.clone(),
            model: self.model.clone(),
            screen_size: self.screen_size,
            screen_density: self.screen_density,
            dzh_user: self.dzh_user.clone(),
        }
    }
}

/// The kind of id a device of this OS is identified by.
pub open spec fn device_id_type_of(os: OSType) -> DeviceIDType {
    match os {
        OSType::Android => DeviceIDType::IMEI,
        OSType::IOS => DeviceIDType::IDFA,
        _ => DeviceIDType::Unknown,
    }
}

impl Device {
    /// IMEI for Android, IDFA for iOS, otherwise unknown.
    pub fn device_id_type(&self) -> (t: DeviceIDType)
        ensures
            t == device_id_type_of(self.os_type),
    {
        match self.os_type {
            OSType::Android => DeviceIDType::IMEI,
            OSType::IOS => DeviceIDType::IDFA,
            _ => DeviceIDType::Unknown,
        }
    }
}

/// A device's ids, each at most once, in order of insertion.
pub struct DeviceIDs(pub Vec<DeviceID>);

impl View for DeviceIDs {
    type V = Seq<DeviceIDView>;

    open spec fn view(&self) -> Seq<DeviceIDView> {
        id_views(self.0@)
    }
}

impl Clone for DeviceIDs {
    fn clone(&self) -> (r: Self)
        ensures
            r.0@ == self.0@,
    {
        let mut out: Vec<DeviceID> = Vec::new();
        let mut i: usize = 0;
        while i < self.0.len()
            invariant
                i <= self.0@.len(),
                out@ == self.0@.take(i as int),
            decreases self.0@.len() - i,
        {
            out.push(self.0[i].clone());
            assert(out@ =~= self.0@.take(i + 1));
            i = i + 1;
        }
        assert(out@ =~= self.0@);
        DeviceIDs(out)
    }
}

/// `ids` with `id` added unless it is there.
pub open spec fn set_insert(ids: Seq<DeviceIDView>, id: DeviceIDView) -> Seq<DeviceIDView> {
    if ids.contains(id) {
        ids
    } else {
        ids.push(id)
    }
}

/// Adding an id that is there changes nothing, so adding it twice is adding
/// it once; after adding, the id is there, and nothing occurs twice if
/// nothing did before.
pub proof fn lemma_set_insert(ids: Seq<DeviceIDView>, id: DeviceIDView)
    ensures
        set_insert(set_insert(ids, id), id) == set_insert(ids, id),
        set_insert(ids, id).contains(id),
        ids.no_duplicates() ==> set_insert(ids, id).no_duplicates(),
{
    if !ids.contains(id) {
        assert(ids.push(id)[ids.len() as int] == id);
        assert(set_insert(ids, id).contains(id));
    }
}

impl DeviceIDs {
    /// Whether no id occurs twice.
    pub open spec fn wf(&self) -> bool {
        self@.no_duplicates()
    }

    /// Adds `id` unless it is there (`HashSet::insert`); whether it was added.
    pub fn insert(&mut self, id: DeviceID) -> (added: bool)
        ensures
            final(self)@ == set_insert(old(self)@, id@),
            added == !old(self)@.contains(id@),
            old(self).wf() ==> final(self).wf(),
    {
        let mut i: usize = 0;
        while i < self.0.len()
            invariant
                i <= self.0@.len(),
                self@ == old(self)@,
                forall|k: int| 0 <= k < i ==> self@[k] != id@,
            decreases self.0@.len() - i,
        {
            if self.0[i].same_as(&id) {
                assert(self@[i as int] == id@);
                return false;
            }
            i = i + 1;
        }
        let ghost prev = self@;
        self.0.push(id);
        assert(self@ =~= prev.push(id@));
        true
    }
}

/// One device id.
#[derive(Debug)]
pub struct DeviceID {
    pub id: String,
    pub typ: DeviceIDType,
}

impl Clone for DeviceID {
    fn clone(&self) -> (r: Self)
        ensures
            r == *self,
    {
        DeviceID { id: self.id.clone(), typ: self.typ }
    }
}

/// The view of a device id: its text and kind.
pub type DeviceIDView = (Seq<char>, DeviceIDType);

impl View for DeviceID {
    type V = DeviceIDView;

    open spec fn view(&self) -> DeviceIDView {
        (self.id@, self.typ)
    }
}

/// The views of a list of device ids.
pub open spec fn id_views(ids: Seq<DeviceID>) -> Seq<DeviceIDView> {
    ids.map_values(|d: DeviceID| d@)
}

impl DeviceID {
    /// Whether the two ids are equal.
    pub fn same_as(&self, other: &DeviceID) -> (b: bool)
        ensures
            b == (self@ == other@),
    {
        self.id == other.id && self.typ == other.typ
    }
}

/// A request template: what the SSP check sends for a slot.
pub struct Tmpl {
    pub media: Media,
    pub device: Device,
    pub network: Network,
    pub client: Client,
    pub location: Location,
    pub adslot: AdSlot,
}

impl View for Tmpl {
    type V = (
        (MediaType, Option<MediaApp>, Option<(String, String, String, Seq<String>)>),
        (Seq<DeviceID>, DeviceRest),
        Network,
        Client,
        Location,
        (i32, Size, i32, String, Seq<KV>, Seq<KV>),
    );

    open spec fn view(&self) -> Self::V {
        (self.media@, self.device@, self.network, self.client, self.location, self.adslot@)
    }
}

impl Clone for Tmpl {
    fn clone(&self) -> (r: Self)
        ensures
            r@ == self@,
    {
        Tmpl {
            media: self.media.clone(),
            device: self.device.clone(),
            network: self.network.clone(),
            client: self.client,
            location: self.location,
            adslot: self.adslot.clone(),
        }
    }
}

/// The slot and OS a template is made for.
#[derive(Debug, Clone, Copy, PartialEq, Eq, Structural, Default)]
pub struct TmplArg {
    pub slot_id: i32,
    pub os_type: OSType,
}

impl Tmpl {
    /// The stored template for the OS: the iOS one, the Android one, or
    /// for another OS the error 500 naming it.
    pub fn try_from_os_type(os_type: OSType, ios: &Tmpl, android: &Tmpl) -> (r: Result<Tmpl, Error>)
        ensures
            os_type == OSType::IOS ==> (r matches Ok(t) && t@ == ios@),
            os_type == OSType::Android ==> (r matches Ok(t) && t@ == android@),
            os_type != OSType::IOS && os_type != OSType::Android ==> is_error(
                r,
                500,
                "invalid os_type: "@ + os_type_name(os_type),
            ),
    {
        match os_type {
            OSType::IOS => Ok(ios.clone()),
            OSType::Android => Ok(android.clone()),
            _ => {
                let name = os_type.debug_name();
                let message = concat("invalid os_type: ", name.as_str());
                InternalServer(message.as_str())
            },
        }
    }

    /// The stored template for the argument's OS, with the argument's slot
    /// id and OS filled in; for an OS without a template, that error.
    pub fn try_from(arg: TmplArg, ios: &Tmpl, android: &Tmpl) -> (r: Result<Tmpl, Error>)
        ensures
            arg.os_type == OSType::IOS || arg.os_type == OSType::Android ==> (r matches Ok(t) && {
                let base = if arg.os_type == OSType::IOS { ios } else { android };
                &&& t.adslot.id == arg.slot_id
                &&& t.device.os_type == arg.os_type
                &&& t.media@ == base.media@
                &&& t.device.ids.0@ == base.device.ids.0@
                &&& t.device.rest() == (base.device.typ, arg.os_type, base.device.os_version,
                    base.device.brand, base.device.model, base.device.screen_size,
                    base.device.screen_density, base.device.dzh_user)
                &&& t.network == base.network
                &&& t.client == base.client
                &&& t.location == base.location
                &&& (t.adslot.size, t.adslot.need_render, t.adslot.scode, t.adslot.tags@, t.adslot.rules@)
                    == (base.adslot.size, base.adslot.need_render, base.adslot.scode, base.adslot.tags@, base.adslot.rules@)
            }),
            arg.os_type != OSType::IOS && arg.os_type != OSType::Android ==> is_error(
                r,
                500,
                "invalid os_type: "@ + os_type_name(arg.os_type),
            ),
    {
        let mut tmpl = Self::try_from_os_type(arg.os_type, ios, android)?;
        tmpl.adslot.id = arg.slot_id;
        tmpl.device.os_type = arg.os_type;
        Ok(tmpl)
    }
}


/// What a plan rule is matched against.
#[derive(Debug, Clone, Copy, PartialEq, Eq, Structural, Hash)]
pub enum PlanRuleMatcherKey {
    SlotID,
    Location,
    OS,
    Scode,
}

/// The rule key that a matcher key stands for.
pub open spec fn key_name(k: PlanRuleMatcherKey) -> Seq<char> {
    match k {
        PlanRuleMatcherKey::SlotID => "slotid"@,
        PlanRuleMatcherKey::Location => "location"@,
        PlanRuleMatcherKey::OS => "os"@,
        PlanRuleMatcherKey::Scode => "scode"@,
    }
}

impl PlanRuleMatcherKey {
    /// The rule key that this matcher key stands for.
    pub fn as_ref(&self) -> (s: &'static str)
        ensures
            s@ == key_name(*self),
    {
        proof {
            reveal_strlit("slotid");
            reveal_strlit("location");
            reveal_strlit("os");
            reveal_strlit("scode");
        }
        match self {
            PlanRuleMatcherKey::SlotID => "slotid",
            PlanRuleMatcherKey::Location => "location",
            PlanRuleMatcherKey::OS => "os",
            PlanRuleMatcherKey::Scode => "scode",
        }
    }
}

/// The values a template offers to plan rules, by key.
pub struct PlanRuleMatcher(pub Vec<(PlanRuleMatcherKey, String)>);

/// The view of a matcher: keys with their values.
pub type MatcherView = Seq<(PlanRuleMatcherKey, Seq<char>)>;

impl View for PlanRuleMatcher {
    type V = MatcherView;

    open spec fn view(&self) -> MatcherView {
        self.0@.map_values(|e: (PlanRuleMatcherKey, String)| (e.0, e.1@))
    }
}

/// Whether a rule admits `value` under `key` (see `AdConfigRule::contains`).
pub open spec fn rule_admits(rule: RuleView, key: Seq<char>, value: Seq<char>) -> bool {
    rule.0 == "tag"@ || (rule.0 == key && rule.1.contains(value))
}

/// Whether the rule admits one of the matcher's values.
pub open spec fn matcher_admits(m: MatcherView, rule: RuleView) -> bool {
    exists|k: int| 0 <= k < m.len() && rule_admits(rule, key_name(#[trigger] m[k].0), m[k].1)
}

/// Whether every rule of a configuration admits one of the matcher's values.
pub open spec fn config_matches(m: MatcherView, rules: Seq<RuleView>) -> bool {
    forall|i: int| 0 <= i < rules.len() ==> matcher_admits(m, #[trigger] rules[i])
}

/// The (plan, configuration) positions of the matching configurations of
/// plan `i`, in order.
pub open spec fn config_hits(m: MatcherView, configs: Seq<(Seq<i32>, Seq<RuleView>)>, i: int) -> Seq<(int, int)>
    decreases configs.len(),
{
    if configs.len() == 0 {
        Seq::empty()
    } else {
        let rest = config_hits(m, configs.drop_last(), i);
        if config_matches(m, configs.last().1) {
            rest.push((i, configs.len() - 1))
        } else {
            rest
        }
    }
}

/// The (plan, configuration) positions of all matching configurations.
pub open spec fn plan_hits(m: MatcherView, plans: Seq<Plan>) -> Seq<(int, int)>
    decreases plans.len(),
{
    if plans.len() == 0 {
        Seq::empty()
    } else {
        plan_hits(m, plans.drop_last()) + config_hits(m, plans.last().adconfig@, plans.len() - 1)
    }
}

/// The (plan, configuration) pairs whose configuration matches: every rule
/// of it admits one of the matcher's values.
pub open spec fn matching_pairs(m: MatcherView, plans: Seq<Plan>) -> Set<(int, int)> {
    Set::new(|h: (int, int)| {
        &&& 0 <= h.0 < plans.len()
        &&& 0 <= h.1 < plans[h.0].adconfig@.len()
        &&& config_matches(m, plans[h.0].adconfig@[h.1].1)
    })
}

proof fn lemma_config_hits(m: MatcherView, configs: Seq<(Seq<i32>, Seq<RuleView>)>, i: int)
    ensures
        config_hits(m, configs, i).no_duplicates(),
        forall|k: int| 0 <= k < config_hits(m, configs, i).len() ==> (#[trigger] config_hits(m, configs, i)[k]).0 == i,
        forall|h: (int, int)| #[trigger] config_hits(m, configs, i).contains(h) <==> (h.0 == i && 0 <= h.1 < configs.len() && config_matches(m, configs[h.1].1)),
    decreases configs.len(),
{
    if configs.len() > 0 {
        let rest = config_hits(m, configs.drop_last(), i);
        lemma_config_hits(m, configs.drop_last(), i);
        let hits = config_hits(m, configs, i);
        let n = configs.len() - 1;
        assert forall|h: (int, int)| #[trigger] hits.contains(h) <==> (h.0 == i && 0 <= h.1 < configs.len() && config_matches(m, configs[h.1].1)) by {
            if h.0 == i && 0 <= h.1 < configs.len() && config_matches(m, configs[h.1].1) {
                if h.1 < n {
                    assert(configs.drop_last()[h.1] == configs[h.1]);
                    assert(rest.contains(h));
                    let k = choose|k: int| 0 <= k < rest.len() && rest[k] == h;
                    assert(hits[k] == h);
                } else {
                    assert(hits[hits.len() - 1] == h);
                }
            }
            if hits.contains(h) {
                let k = choose|k: int| 0 <= k < hits.len() && hits[k] == h;
                if k < rest.len() {
                    assert(rest[k] == h);
                    assert(rest.contains(h));
                    assert(configs.drop_last()[h.1] == configs[h.1]);
                }
            }
        }
        assert forall|a: int, b: int| 0 <= a < hits.len() && 0 <= b < hits.len() && a != b implies hits[a] != hits[b] by {
            if a < rest.len() && b < rest.len() {
                assert(hits[a] == rest[a] && hits[b] == rest[b]);
            } else if a < rest.len() {
                assert(rest.contains(hits[a]));
            } else if b < rest.len() {
                assert(rest.contains(hits[b]));
            }
        }
    }
}

/// Every matching (plan, configuration) pair is a hit, and nothing else is:
/// a pair is among the hits exactly when its configuration matches, and no
/// pair is a hit twice.
pub proof fn lemma_plan_hits(m: MatcherView, plans: Seq<Plan>)
    ensures
        plan_hits(m, plans).no_duplicates(),
        forall|k: int| 0 <= k < plan_hits(m, plans).len() ==> 0 <= (#[trigger] plan_hits(m, plans)[k]).0 < plans.len(),
        forall|h: (int, int)| #[trigger] plan_hits(m, plans).contains(h) <==> matching_pairs(m, plans).contains(h),
    decreases plans.len(),
{
    if plans.len() > 0 {
        let n = plans.len() - 1;
        let prev = plans.drop_last();
        let a = plan_hits(m, prev);
        let b = config_hits(m, plans.last().adconfig@, n);
        lemma_plan_hits(m, prev);
        lemma_config_hits(m, plans.last().adconfig@, n);
        let hits = plan_hits(m, plans);
        assert(hits == a + b);
        assert forall|k: int| 0 <= k < hits.len() implies 0 <= (#[trigger] hits[k]).0 < plans.len() by {
            if k < a.len() {
                assert(hits[k] == a[k]);
            } else {
                assert(hits[k] == b[k - a.len()]);
            }
        }
        assert forall|x: int, y: int| 0 <= x < a.len() && 0 <= y < b.len() implies a[x] != b[y] by {
            assert(0 <= a[x].0 < prev.len());
            assert(b[y].0 == n);
        }
        vstd::seq_lib::lemma_no_dup_in_concat(a, b);
        assert forall|h: (int, int)| #[trigger] hits.contains(h) <==> matching_pairs(m, plans).contains(h) by {
            if matching_pairs(m, plans).contains(h) {
                if h.0 < n {
                    assert(prev[h.0] == plans[h.0]);
                    assert(matching_pairs(m, prev).contains(h));
                    assert(a.contains(h));
                    let k = choose|k: int| 0 <= k < a.len() && a[k] == h;
                    assert(hits[k] == h);
                } else {
                    assert(b.contains(h));
                    let k = choose|k: int| 0 <= k < b.len() && b[k] == h;
                    assert(hits[a.len() + k] == h);
                }
            }
            if hits.contains(h) {
                let k = choose|k: int| 0 <= k < hits.len() && hits[k] == h;
                if k < a.len() {
                    assert(a[k] == h);
                    assert(a.contains(h));
                    assert(matching_pairs(m, prev).contains(h));
                    assert(prev[h.0] == plans[h.0]);
                } else {
                    assert(b[k - a.len()] == h);
                    assert(b.contains(h));
                }
            }
        }
    }
}

/// There are as many hits as matching (plan, configuration) pairs.
pub proof fn lemma_plan_hits_count(m: MatcherView, plans: Seq<Plan>)
    ensures
        matching_pairs(m, plans).finite(),
        matching_pairs(m, plans).len() == plan_hits(m, plans).len(),
{
    lemma_plan_hits(m, plans);
    assert(plan_hits(m, plans).to_set() =~= matching_pairs(m, plans));
    plan_hits(m, plans).unique_seq_to_set();
}

/// A matched plan and the tag rules of the configuration that matched.
pub struct PlanMatcherResult {
    pub plan: Plan,
    pub tag_rules: Vec<AdConfigRule>,
}

/// Whether `r` is the result for the hit `h` among `plans`.
pub open spec fn is_hit_result(r: PlanMatcherResult, plans: Seq<Plan>, h: (int, int)) -> bool {
    &&& same_plan(r.plan, plans[h.0])
    &&& rule_views(r.tag_rules@) == plans[h.0].adconfig@[h.1].1.filter(|x: RuleView| is_tag_rule(x))
}

/// Results laid out along the hits answer every matching (plan,
/// configuration) pair, and there are as many as there are such pairs.
proof fn lemma_hit_results(m: MatcherView, plans: Seq<Plan>, ps: Seq<PlanMatcherResult>)
    requires
        ps.len() == plan_hits(m, plans).len(),
        forall|k: int| 0 <= k < ps.len() ==> is_hit_result(#[trigger] ps[k], plans, plan_hits(m, plans)[k]),
    ensures
        ps.len() == matching_pairs(m, plans).len(),
        forall|i: int, j: int| #[trigger] matching_pairs(m, plans).contains((i, j))
            ==> exists|k: int| 0 <= k < ps.len() && is_hit_result(#[trigger] ps[k], plans, (i, j)),
{
    let hits = plan_hits(m, plans);
    lemma_plan_hits(m, plans);
    lemma_plan_hits_count(m, plans);
    assert forall|i: int, j: int| #[trigger] matching_pairs(m, plans).contains((i, j))
        implies exists|k: int| 0 <= k < ps.len() && is_hit_result(#[trigger] ps[k], plans, (i, j)) by {
        assert(hits.contains((i, j)));
        let k = choose|k: int| 0 <= k < hits.len() && hits[k] == (i, j);
        assert(is_hit_result(ps[k], plans, hits[k]));
    }
}

impl PlanRuleMatcher {
    /// The matcher for a template: the DSP slot id, the device's OS by name
    /// and the slot's scode.
    pub fn new(tmpl: &Tmpl, dsp_slot_id: i32) -> (m: PlanRuleMatcher)
        ensures
            m@ == seq![
                (PlanRuleMatcherKey::SlotID, decimal_int(dsp_slot_id as int)),
                (PlanRuleMatcherKey::OS, os_type_name(tmpl.device.os_type)),
                (PlanRuleMatcherKey::Scode, tmpl.adslot.scode@),
            ],
    {
        let mut map: Vec<(PlanRuleMatcherKey, String)> = Vec::new();
        map.push((PlanRuleMatcherKey::SlotID, i64_to_string(dsp_slot_id as i64)));
        map.push((PlanRuleMatcherKey::OS, tmpl.device.os_type.debug_name()));
        map.push((PlanRuleMatcherKey::Scode, tmpl.adslot.scode.clone()));
        let m = PlanRuleMatcher(map);
        assert(m@ =~= seq![
            (PlanRuleMatcherKey::SlotID, decimal_int(dsp_slot_id as int)),
            (PlanRuleMatcherKey::OS, os_type_name(tmpl.device.os_type)),
            (PlanRuleMatcherKey::Scode, tmpl.adslot.scode@),
        ]);
        m
    }

    /// For each plan in order, for each configuration of it that matches,
    /// the plan and that configuration's tag rules.
    pub fn match_plans(&self, plans: Vec<Plan>) -> (ps: Vec<PlanMatcherResult>)
        ensures
            ps@.len() == plan_hits(self@, plans@).len(),
            forall|k: int| 0 <= k < ps@.len() ==> is_hit_result(#[trigger] ps@[k], plans@, plan_hits(self@, plans@)[k]),
            ps@.len() == matching_pairs(self@, plans@).len(),
            forall|i: int, j: int| #[trigger] matching_pairs(self@, plans@).contains((i, j))
                ==> exists|k: int| 0 <= k < ps@.len() && is_hit_result(#[trigger] ps@[k], plans@, (i, j)),
    {
        let mut ps: Vec<PlanMatcherResult> = Vec::new();
        let mut i: usize = 0;
        while i < plans.len()
            invariant
                i <= plans@.len(),
                ps@.len() == plan_hits(self@, plans@.take(i as int)).len(),
                forall|k: int| 0 <= k < ps@.len() ==> is_hit_result(#[trigger] ps@[k], plans@, plan_hits(self@, plans@.take(i as int))[k]),
            decreases plans@.len() - i,
        {
            let plan = &plans[i];
            let ghost base = plan_hits(self@, plans@.take(i as int));
            let mut j: usize = 0;
            while j < plan.adconfig.0.len()
                invariant
                    i < plans@.len(),
                    *plan == plans@[i as int],
                    j <= plan.adconfig@.len(),
                    ps@.len() == base.len() + config_hits(self@, plan.adconfig@.take(j as int), i as int).len(),
                    forall|k: int| 0 <= k < ps@.len() ==> is_hit_result(#[trigger] ps@[k], plans@, (base + config_hits(self@, plan.adconfig@.take(j as int), i as int))[k]),
                decreases plan.adconfig@.len() - j,
            {
                let config = &plan.adconfig.0[j];
                assert(plan.adconfig@.take(j + 1).drop_last() =~= plan.adconfig@.take(j as int));
                assert(plan.adconfig@.take(j + 1).last() == config@);
                if self.match_adconfig(config) {
                    let r = PlanMatcherResult { plan: plan.clone(), tag_rules: config.tag_rules() };
                    let ghost prev = ps@;
                    ps.push(r);
                    assert(base + config_hits(self@, plan.adconfig@.take(j + 1), i as int)
                        =~= (base + config_hits(self@, plan.adconfig@.take(j as int), i as int)).push((i as int, j as int)));
                    assert forall|k: int| 0 <= k < ps@.len() implies is_hit_result(#[trigger] ps@[k], plans@, (base + config_hits(self@, plan.adconfig@.take(j + 1), i as int))[k]) by {
                        if k < prev.len() {
                            assert(ps@[k] == prev[k]);
                        }
                    }
                }
                j = j + 1;
            }
            assert(plan.adconfig@.take(plan.adconfig@.len() as int) =~= plan.adconfig@);
            assert(plans@.take(i + 1).drop_last() =~= plans@.take(i as int));
            assert(plans@.take(i + 1).last() == plans@[i as int]);
            i = i + 1;
        }
        assert(plans@.take(plans@.len() as int) =~= plans@);
        proof {
            lemma_hit_results(self@, plans@, ps@);
        }
        ps
    }

    /// Whether every rule of the configuration admits one of the values.
    pub fn match_adconfig(&self, config: &AdConfig) -> (b: bool)
        ensures
            b == config_matches(self@, config@.1),
    {
        let mut i: usize = 0;
        while i < config.rules.len()
            invariant
                i <= config.rules@.len(),
                forall|k: int| 0 <= k < i ==> matcher_admits(self@, #[trigger] config@.1[k]),
            decreases config.rules@.len() - i,
        {
            if !self.match_adconfig_rule(&config.rules[i]) {
                assert(!matcher_admits(self@, config@.1[i as int]));
                return false;
            }
            i = i + 1;
        }
        true
    }

    /// Whether the rule admits one of the matcher's values.
    pub fn match_adconfig_rule(&self, rule: &AdConfigRule) -> (b: bool)
        ensures
            b == matcher_admits(self@, rule@),
    {
        let mut i: usize = 0;
        while i < self.0.len()
            invariant
                i <= self.0@.len(),
                forall|k: int| 0 <= k < i ==> !rule_admits(rule@, key_name(#[trigger] self@[k].0), self@[k].1),
            decreases self.0@.len() - i,
        {
            let (key, value) = (&self.0[i].0, &self.0[i].1);
            if rule.contains(key.as_ref(), value.as_str()) {
                assert(rule_admits(rule@, key_name(self@[i as int].0), self@[i as int].1));
                return true;
            }
            i = i + 1;
        }
        false
    }
}

/// The tags of the tag rules, rule by rule.
pub open spec fn rule_tags(rules: Seq<RuleView>) -> Seq<Seq<char>>
    decreases rules.len(),
{
    if rules.len() == 0 {
        Seq::empty()
    } else {
        rule_tags(rules.drop_last()) + if is_tag_rule(rules.last()) {
            rules.last().1
        } else {
            Seq::empty()
        }
    }
}

/// Whether `r` is the template `t` with the device id `id` added.
pub open spec fn tmpl_with_id(t: Tmpl, r: Tmpl, id: DeviceIDView) -> bool {
    &&& r.media@ == t.media@
    &&& r.device.rest() == t.device.rest()
    &&& r.device.ids@ == set_insert(t.device.ids@, id)
    &&& r.network == t.network
    &&& r.client == t.client
    &&& r.location == t.location
    &&& r.adslot@ == t.adslot@
}

impl PlanMatcherResult {
    /// The templates to send for this plan: the template itself when the
    /// configuration has no tag rules; otherwise, for every tag in order,
    /// the template with the device id `prefix + tag` (of the OS's id kind).
    pub fn gen_tmpls(&self, tmpl: &Tmpl, prefix: &str) -> (out: Vec<Tmpl>)
        ensures
            self.tag_rules@.len() == 0 ==> out@.len() == 1 && out@[0]@ == tmpl@,
            self.tag_rules@.len() > 0 ==> {
                let tags = rule_tags(rule_views(self.tag_rules@));
                &&& out@.len() == tags.len()
                &&& forall|k: int| 0 <= k < out@.len() ==> tmpl_with_id(
                    *tmpl,
                    #[trigger] out@[k],
                    (prefix@ + tags[k], device_id_type_of(tmpl.device.os_type)),
                )
            },
    {
        if self.tag_rules.len() == 0 {
            let mut v: Vec<Tmpl> = Vec::new();
            v.push(tmpl.clone());
            return v;
        }
        let device_id_type = tmpl.device.device_id_type();
        let ghost rv = rule_views(self.tag_rules@);
        let mut vec: Vec<Tmpl> = Vec::new();
        let mut i: usize = 0;
        while i < self.tag_rules.len()
            invariant
                i <= self.tag_rules@.len(),
                rv == rule_views(self.tag_rules@),
                device_id_type == device_id_type_of(tmpl.device.os_type),
                vec@.len() == rule_tags(rv.take(i as int)).len(),
                forall|k: int| 0 <= k < vec@.len() ==> tmpl_with_id(
                    *tmpl,
                    #[trigger] vec@[k],
                    (prefix@ + rule_tags(rv.take(i as int))[k], device_id_type),
                ),
            decreases self.tag_rules@.len() - i,
        {
            let tags = self.tag_rules[i].tags();
            let ghost base = rule_tags(rv.take(i as int));
            let ghost added = if is_tag_rule(rv[i as int]) { rv[i as int].1 } else { Seq::<Seq<char>>::empty() };
            assert(tags@.map_values(|t: String| t@) =~= added);
            let mut j: usize = 0;
            while j < tags.len()
                invariant
                    j <= tags@.len(),
                    tags@.map_values(|t: String| t@) == added,
                    device_id_type == device_id_type_of(tmpl.device.os_type),
                    vec@.len() == base.len() + j,
                    forall|k: int| 0 <= k < vec@.len() ==> tmpl_with_id(
                        *tmpl,
                        #[trigger] vec@[k],
                        (prefix@ + (base + added)[k], device_id_type),
                    ),
                decreases tags@.len() - j,
            {
                let mut t = tmpl.clone();
                let id = Self::device_id(&tags[j], prefix, device_id_type);
                t.device.ids.insert(id);
                assert((base + added)[base.len() + j] == tags@[j as int]@);
                let ghost prev = vec@;
                vec.push(t);
                assert forall|k: int| 0 <= k < vec@.len() implies tmpl_with_id(
                    *tmpl,
                    #[trigger] vec@[k],
                    (prefix@ + (base + added)[k], device_id_type),
                ) by {
                    if k < prev.len() {
                        assert(vec@[k] == prev[k]);
                    }
                }
                j = j + 1;
            }
            assert(rv.take(i + 1).drop_last() =~= rv.take(i as int));
            assert(rv.take(i + 1).last() == rv[i as int]);
            i = i + 1;
        }
        assert(rv.take(self.tag_rules@.len() as int) =~= rv);
        vec
    }

    /// The device id `prefix + tag` of the given kind.
    pub fn device_id(tag: &String, prefix: &str, device_id_type: DeviceIDType) -> (d: DeviceID)
        ensures
            d@ == (prefix@ + tag@, device_id_type),
    {
        DeviceID { id: concat(prefix, tag.as_str()), typ: device_id_type }
    }
}

/// The error when a medium's OS is not the template's device's.
pub fn check_device_os(media_os: OSType, tmpl: &Tmpl) -> (r: Result<(), Error>)
    ensures
        media_os == tmpl.device.os_type ==> r is Ok,
        media_os != tmpl.device.os_type ==> is_error(
            r,
            400,
            "invalid device.os_type: "@ + os_type_name(tmpl.device.os_type),
        ),
{
    if media_os != tmpl.device.os_type {
        let name = tmpl.device.os_type.debug_name();
        let message = concat("invalid device.os_type: ", name.as_str());
        return BadRequest(message.as_str());
    }
    Ok(())
}

/// The template for one strategy configuration: with the app version that
/// its rules name, where they name one; otherwise the template unchanged.
pub fn tmpl_for_config(tmpl: &Tmpl, data: &StrategyConfig) -> (r: Tmpl)
    requires
        first_app_version(data.rules.0@) is Some ==> tmpl.media.app is Some,
    ensures
        first_app_version(data.rules.0@) is None ==> r@ == tmpl@,
        first_app_version(data.rules.0@) matches Some(v) ==> {
            let app = tmpl.media.app->0;
            &&& r.media.app == Some(MediaApp { version: v, ..app })
            &&& r.media.typ == tmpl.media.typ
            &&& r.media@.2 == tmpl.media@.2
            &&& r.device@ == tmpl.device@
            &&& r.network == tmpl.network
            &&& r.client == tmpl.client
            &&& r.location == tmpl.location
            &&& r.adslot@ == tmpl.adslot@
        },
{
    let mut tmpl = tmpl.clone();
    if let Ok(app_version) = data.app_version() {
        let app = tmpl.media.app.clone();
        let app = app.unwrap();
        tmpl.media.app = Some(MediaApp { version: app_version, ..app });
    }
    tmpl
}

} // verus!
