//! Strategies: for a slot or medium, which DSPs get which share, and which
//! app versions the strategy's rules name.
use vstd::prelude::*;
use crate::text::{split_strings, split_spec, concat, i64_to_string, decimal_int};
use super::error::{Error, InternalServer, is_error};
use super::model::{Status, Version, version_spec};
use super::ssp::{KV, kv_debug};

verus! {

broadcast use vstd::string::group_string_axioms;

/// The rule key that lists app versions.
pub const STRATEGY_CONFIG_DATA_RULE_KEY_APPV: &'static str = "appv";

/// A strategy as stored: times are microseconds since the Unix epoch.
pub struct Strategy {
    pub id: i32,
    pub status: Status,
    pub config: StrategyConfigs,
    pub comment: String,
    pub created_at: i64,
    pub updated_at: i64,
}

/// A strategy's configurations.
pub struct StrategyConfigs {
    pub data: Vec<StrategyConfig>,
}

/// One configuration: the rules it applies under and its distributions.
pub struct StrategyConfig {
    pub distributions: Vec<StrategyConfigDistribution>,
    pub rules: StrategyConfigRules,
}

/// A configuration's rules.
pub struct StrategyConfigRules(pub Vec<KV>);

/// One distribution: a share and the DSPs it goes to, in two tiers.
pub struct StrategyConfigDistribution {
    pub percent: i32,
    pub first_dsp_infos: StrategyConfigDistributionDspInfos,
    pub second_dsp_infos: StrategyConfigDistributionDspInfos,
}

/// A list of DSP entries.
pub struct StrategyConfigDistributionDspInfos(pub Vec<StrategyConfigDistributionDspInfo>);

/// One DSP entry of a distribution.
#[derive(Debug)]
pub struct StrategyConfigDistributionDspInfo {
    pub dsp_id: i32,
    pub dsp_cpm: i32,
    pub dsp_percent: i32,
    pub dsp_mng_id: i32,
    pub config: String,
}

impl Clone for StrategyConfigDistributionDspInfo {
    fn clone(&self) -> (r: Self)
        ensures
            r == *self,
    {
        StrategyConfigDistributionDspInfo {
            dsp_id: self.dsp_id,
            dsp_cpm: self.dsp_cpm,
            dsp_percent: self.dsp_percent,
            dsp_mng_id: self.dsp_mng_id,
            config: self.config.clone(),
        }
    }
}

/// The versions that the pieces name, skipping pieces that name none.
pub open spec fn versions_of(pieces: Seq<Seq<char>>) -> Seq<Version>
    decreases pieces.len(),
{
    if pieces.len() == 0 {
        Seq::empty()
    } else {
        let rest = versions_of(pieces.drop_last());
        match version_spec(pieces.last()) {
            Some(v) => rest.push(v),
            None => rest,
        }
    }
}

/// The versions that an `appv` rule lists, comma-separated.
pub open spec fn rule_versions(value: Seq<char>) -> Seq<Version> {
    versions_of(split_spec(value, ','))
}

/// The first version of the first `appv` rule that lists any.
pub open spec fn first_app_version(rules: Seq<KV>) -> Option<Version>
    decreases rules.len(),
{
    if rules.len() == 0 {
        None
    } else if rules[0].key@ == "appv"@ && rule_versions(rules[0].value@).len() > 0 {
        Some(rule_versions(rules[0].value@)[0])
    } else {
        first_app_version(rules.drop_first())
    }
}

/// What `{:?}` writes for the pairs of a list, separated by `, `.
pub open spec fn kvs_debug(kvs: Seq<KV>) -> Seq<char>
    decreases kvs.len(),
{
    if kvs.len() == 0 {
        Seq::empty()
    } else if kvs.len() == 1 {
        kv_debug(kvs[0])
    } else {
        kvs_debug(kvs.drop_last()) + ", "@ + kv_debug(kvs.last())
    }
}

/// What `{:?}` writes for a configuration's rules.
pub open spec fn rules_debug(rules: Seq<KV>) -> Seq<char> {
    "StrategyConfigRules(["@ + kvs_debug(rules) + "])"@
}

impl StrategyConfig {
    /// The app version that the configuration's rules name
    /// (`first_app_version`); without one, the error 500 that lists the rules.
    pub fn app_version(&self) -> (r: Result<Version, Error>)
        ensures
            first_app_version(self.rules.0@) matches Some(v) ==> r == Ok::<Version, Error>(v),
            first_app_version(self.rules.0@) is None ==> is_error(
                r,
                500,
                "no app rule. rules: "@ + rules_debug(self.rules.0@),
            ),
    {
        if let Ok(app_version) = self.rules.app_version() {
            return Ok(app_version);
        }
        let shown = self.rules.debug_text();
        let message = concat("no app rule. rules: ", shown.as_str());
        InternalServer(message.as_str())
    }
}

impl StrategyConfigRules {
    /// The text that `{:?}` writes for these rules.
    pub fn debug_text(&self) -> (s: String)
        ensures
            s@ == rules_debug(self.0@),
    {
        let mut body = String::new();
        let mut i: usize = 0;
        while i < self.0.len()
            invariant
                i <= self.0@.len(),
                body@ == kvs_debug(self.0@.take(i as int)),
            decreases self.0@.len() - i,
        {
            let one = self.0[i].debug_text();
            assert(self.0@.take(i + 1).drop_last() =~= self.0@.take(i as int));
            if i > 0 {
                body = concat(body.as_str(), ", ");
            }
            body = concat(body.as_str(), one.as_str());
            proof {
                if i == 0 {
                    assert(self.0@.take(1) =~= seq![self.0@[0]]);
                }
            }
            i = i + 1;
        }
        assert(self.0@.take(self.0@.len() as int) =~= self.0@);
        let s = concat("StrategyConfigRules([", body.as_str());
        concat(s.as_str(), "])")
    }

    /// The first version of the first `appv` rule that lists any; without
    /// one, the error 500 `no app rule.`.
    pub fn app_version(&self) -> (r: Result<Version, Error>)
        ensures
            first_app_version(self.0@) matches Some(v) ==> r == Ok::<Version, Error>(v),
            first_app_version(self.0@) is None ==> is_error(r, 500, "no app rule."@),
    {
        let mut i: usize = 0;
        assert(self.0@.skip(0) =~= self.0@);
        while i < self.0.len()
            invariant
                i <= self.0@.len(),
                first_app_version(self.0@) == first_app_version(self.0@.skip(i as int)),
            decreases self.0@.len() - i,
        {
            let ghost rest = self.0@.skip(i as int);
            assert(rest.drop_first() =~= self.0@.skip(i + 1));
            assert(rest[0] == self.0@[i as int]);
            if let Ok(app_versions) = Self::app_versions(&self.0[i]) {
                if app_versions.len() > 0 {
                    return Ok(app_versions[0]);
                }
            }
            proof {
                reveal_strlit("appv");
            }
            i = i + 1;
        }
        InternalServer("no app rule.")
    }

    /// The versions that an `appv` rule lists, comma-separated, skipping
    /// pieces that name none; for another rule, the error 500 naming it.
    pub fn app_versions(rule: &KV) -> (r: Result<Vec<Version>, Error>)
        ensures
            rule.key@ == "appv"@ ==> (r matches Ok(v) && v@ == rule_versions(rule.value@)),
            rule.key@ != "appv"@ ==> is_error(r, 500, "not app. rule: "@ + kv_debug(*rule)),
    {
        let appv = STRATEGY_CONFIG_DATA_RULE_KEY_APPV.to_string();
        proof {
            reveal_strlit("appv");
        }
        if rule.key != appv {
            let shown = rule.debug_text();
            let message = concat("not app. rule: ", shown.as_str());
            return InternalServer(message.as_str());
        }
        let pieces = split_strings(rule.value.as_str(), ',');
        let ghost parts = split_spec(rule.value@, ',');
        let mut versions: Vec<Version> = Vec::new();
        let mut i: usize = 0;
        while i < pieces.len()
            invariant
                i <= pieces@.len(),
                pieces@.map_values(|p: String| p@) == parts,
                versions@ == versions_of(parts.take(i as int)),
            decreases pieces@.len() - i,
        {
            assert(parts.take(i + 1).drop_last() =~= parts.take(i as int));
            assert(parts.take(i + 1).last() == pieces@[i as int]@);
            if let Ok(version) = Version::try_from(pieces[i].as_str()) {
                versions.push(version);
            }
            i = i + 1;
        }
        assert(parts.take(pieces@.len() as int) =~= parts);
        Ok(versions)
    }
}

/// The entries of `infos` for the DSP `dsp_id`, in order.
pub open spec fn infos_for(infos: Seq<StrategyConfigDistributionDspInfo>, dsp_id: i32) -> Seq<
    StrategyConfigDistributionDspInfo,
> {
    infos.filter(|i: StrategyConfigDistributionDspInfo| i.dsp_id == dsp_id)
}

impl StrategyConfigDistribution {
    /// The entries for the DSP `dsp_id`: those of the first tier, then those
    /// of the second.
    pub fn find_dsp_infos(&self, dsp_id: i32) -> (r: StrategyConfigDistributionDspInfos)
        ensures
            r.0@ == infos_for(self.first_dsp_infos.0@, dsp_id) + infos_for(self.second_dsp_infos.0@, dsp_id),
    {
        let mut first_dsp_infos = Self::do_find_dsp_infos(&self.first_dsp_infos, dsp_id);
        let mut second_dsp_infos = Self::do_find_dsp_infos(&self.second_dsp_infos, dsp_id);
        first_dsp_infos.0.append(&mut second_dsp_infos.0);
        first_dsp_infos
    }

    /// The entries of `dsp_infos` for the DSP `dsp_id`, in order.
    pub fn do_find_dsp_infos(dsp_infos: &StrategyConfigDistributionDspInfos, dsp_id: i32) -> (r:
        StrategyConfigDistributionDspInfos)
        ensures
            r.0@ == infos_for(dsp_infos.0@, dsp_id),
    {
        let mut vec: Vec<StrategyConfigDistributionDspInfo> = Vec::new();
        let mut i: usize = 0;
        while i < dsp_infos.0.len()
            invariant
                i <= dsp_infos.0@.len(),
                vec@ == infos_for(dsp_infos.0@.take(i as int), dsp_id),
            decreases dsp_infos.0@.len() - i,
        {
            proof {
                reveal_with_fuel(Seq::<_>::filter, 1);
            }
            assert(dsp_infos.0@.take(i + 1).drop_last() =~= dsp_infos.0@.take(i as int));
            if dsp_infos.0[i].dsp_id == dsp_id {
                vec.push(dsp_infos.0[i].clone());
            }
            i = i + 1;
        }
        assert(dsp_infos.0@.take(dsp_infos.0@.len() as int) =~= dsp_infos.0@);
        StrategyConfigDistributionDspInfos(vec)
    }
}

impl StrategyConfigDistributionDspInfos {
    /// The management ids of the entries, in order.
    pub fn mng_ids(&self) -> (ids: Vec<i32>)
        ensures
            ids@ == self.0@.map_values(|i: StrategyConfigDistributionDspInfo| i.dsp_mng_id),
    {
        let mut ids: Vec<i32> = Vec::new();
        let mut i: usize = 0;
        while i < self.0.len()
            invariant
                i <= self.0@.len(),
                ids@ == self.0@.take(i as int).map_values(|i: StrategyConfigDistributionDspInfo| i.dsp_mng_id),
            decreases self.0@.len() - i,
        {
            ids.push(self.0[i].dsp_mng_id);
            assert(ids@ =~= self.0@.take(i + 1).map_values(|i: StrategyConfigDistributionDspInfo| i.dsp_mng_id));
            i = i + 1;
        }
        assert(self.0@.take(self.0@.len() as int) =~= self.0@);
        ids
    }
}

/// The message when neither the slot's nor the medium's strategy exists.
pub open spec fn not_found_message(slot_id: i32, media_id: i32) -> Seq<char> {
    "invalid slot_id: "@ + decimal_int(slot_id as int) + " or media_id: "@ + decimal_int(media_id as int)
}

/// The error when neither the slot's nor the medium's strategy exists.
pub fn strategy_not_found(slot_id: i32, media_id: i32) -> (e: Error)
    ensures
        e.code == 500,
        e.message@ == not_found_message(slot_id, media_id),
{
    let s = concat("invalid slot_id: ", i64_to_string(slot_id as i64).as_str());
    let s = concat(s.as_str(), " or media_id: ");
    let s = concat(s.as_str(), i64_to_string(media_id as i64).as_str());
    Error { code: 500, message: s }
}

/// The strategy found for the slot, else the one found for the medium, else
/// the error that names both ids.
pub fn pick_strategy(by_slot: Option<Strategy>, by_media: Option<Strategy>, slot_id: i32, media_id: i32) -> (r:
    Result<Strategy, Error>)
    ensures
        by_slot is Some ==> r == Ok::<Strategy, Error>(by_slot->0),
        by_slot is None && by_media is Some ==> r == Ok::<Strategy, Error>(by_media->0),
        by_slot is None && by_media is None ==> is_error(r, 500, not_found_message(slot_id, media_id)),
{
    if let Some(strategy) = by_slot {
        return Ok(strategy);
    }
    if let Some(strategy) = by_media {
        return Ok(strategy);
    }
    Err(strategy_not_found(slot_id, media_id))
}

} // verus!
