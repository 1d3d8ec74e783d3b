//! The cloud side: the profile and the region that a client configuration
//! carries, and the inventory of the instances that the provider describes.

use crate::endpoint::{host_of, hostname};
use crate::error::{Error, ErrorView};
use crate::inventory::InstanceInventory;
use crate::kube::{Config, ConfigView, ExecEnvVarView};
use crate::pattern::{is_match, regex_is_match};
use crate::text::{split, split_str};
use vstd::prelude::*;
use vstd::string::*;

verus! {

/// The shape of a region code at the end of an endpoint segment: two
/// lowercase letters, one or more words of lowercase letters each led by a
/// hyphen, a hyphen and a number.
pub const REGION_PATTERN: &'static str = "[a-z]{2}(?:-[a-z]+)+-\\d+$";

/// The first of `segments` whose verdict is a match. Segments beyond the
/// verdicts, and verdicts beyond the segments, count for nothing.
pub open spec fn first_match(segments: Seq<Seq<char>>, verdicts: Seq<Option<bool>>) -> Option<
    Seq<char>,
>
    decreases segments.len(),
{
    if segments.len() == 0 || verdicts.len() == 0 {
        None
    } else if verdicts[0] == Some(true) {
        Some(segments[0])
    } else {
        first_match(segments.drop_first(), verdicts.drop_first())
    }
}

/// Picks the first of `segments` whose verdict is a match.
pub fn select_region(segments: &Vec<String>, verdicts: &Vec<Option<bool>>) -> (region: Option<
    String,
>)
    ensures
        region.deep_view() == first_match(segments.deep_view(), verdicts@),
{
    let ghost all = segments.deep_view();
    let mut i: usize = 0;
    assert(all.skip(0) =~= all && verdicts@.skip(0) =~= verdicts@);
    while i < segments.len() && i < verdicts.len()
        invariant
            i <= segments.len(),
            i <= verdicts.len(),
            all == segments.deep_view(),
            first_match(all, verdicts@) == first_match(all.skip(i as int), verdicts@.skip(i as int)),
        decreases segments.len() - i,
    {
        let ghost rest = all.skip(i as int);
        let ghost marks = verdicts@.skip(i as int);
        assert(rest[0] == segments[i as int]@ && marks[0] == verdicts[i as int]);
        assert(rest.drop_first() =~= all.skip(i + 1));
        assert(marks.drop_first() =~= verdicts@.skip(i + 1));
        match verdicts[i] {
            Some(true) => {
                return Some(segments[i].clone());
            },
            _ => {},
        }
        i += 1;
    }
    None
}

/// Whether `segment` ends in a region code, by the search for
/// `REGION_PATTERN`.
pub open spec fn is_region_segment(segment: Seq<char>) -> bool {
    regex_is_match(REGION_PATTERN@, segment) == Some(true)
}

/// The verdict of the search for `REGION_PATTERN` on each segment.
pub open spec fn region_verdicts(segments: Seq<Seq<char>>) -> Seq<Option<bool>> {
    Seq::new(segments.len(), |i: int| regex_is_match(REGION_PATTERN@, segments[i]))
}

/// The region that a host name carries: the first of its dot-separated
/// segments that ends in a region code.
pub open spec fn region_in(host: Seq<char>) -> Option<Seq<char>> {
    let segments = split(host, '.');
    first_match(segments, region_verdicts(segments))
}

/// The region that a cluster endpoint names: the one that the host of its
/// URL carries.
pub open spec fn region_of(endpoint: Seq<char>) -> Option<Seq<char>> {
    region_in(host_of(endpoint))
}

/// `first_match` finds the segment at the first position whose verdict is
/// a match, and nothing where no position within both sequences has one.
pub proof fn lemma_first_match(segments: Seq<Seq<char>>, verdicts: Seq<Option<bool>>)
    ensures
        match first_match(segments, verdicts) {
            Some(found) => exists|i: int|
                0 <= i < segments.len() && i < verdicts.len() && segments[i] == found
                    && #[trigger] verdicts[i] == Some(true) && forall|j: int|
                    0 <= j < i ==> verdicts[j] != Some(true),
            None => forall|i: int|
                0 <= i < segments.len() && i < verdicts.len() ==> verdicts[i] != Some(true),
        },
    decreases segments.len(),
{
    if segments.len() == 0 || verdicts.len() == 0 {
    } else if verdicts[0] == Some(true) {
        assert(segments[0] == first_match(segments, verdicts).unwrap());
    } else {
        let rest = segments.drop_first();
        let marks = verdicts.drop_first();
        lemma_first_match(rest, marks);
        match first_match(rest, marks) {
            Some(found) => {
                let i = choose|i: int|
                    0 <= i < rest.len() && i < marks.len() && rest[i] == found
                        && #[trigger] marks[i] == Some(true) && forall|j: int|
                        0 <= j < i ==> marks[j] != Some(true);
                assert(segments[i + 1] == found && verdicts[i + 1] == Some(true));
                assert forall|j: int| 0 <= j < i + 1 implies verdicts[j] != Some(true) by {
                    if j > 0 {
                        assert(verdicts[j] == marks[j - 1]);
                    }
                }
            },
            None => {
                assert forall|i: int|
                    0 <= i < segments.len() && i < verdicts.len() implies verdicts[i] != Some(
                    true,
                ) by {
                    if i > 0 {
                        assert(verdicts[i] == marks[i - 1]);
                    }
                }
            },
        }
    }
}

/// Where a segment of the host name ends in a region code, the region is
/// the first such segment, whole and unchanged; where none does, there is
/// no region.
pub proof fn lemma_region_in(host: Seq<char>)
    ensures
        match region_in(host) {
            Some(region) => exists|i: int|
                0 <= i < split(host, '.').len() && #[trigger] split(host, '.')[i] == region
                    && is_region_segment(region) && forall|j: int|
                    0 <= j < i ==> !is_region_segment(#[trigger] split(host, '.')[j]),
            None => forall|i: int|
                0 <= i < split(host, '.').len() ==> !is_region_segment(
                    #[trigger] split(host, '.')[i],
                ),
        },
{
    let segments = split(host, '.');
    let verdicts = region_verdicts(segments);
    lemma_first_match(segments, verdicts);
    match region_in(host) {
        Some(region) => {
            let i = choose|i: int|
                0 <= i < segments.len() && i < verdicts.len() && segments[i] == region
                    && #[trigger] verdicts[i] == Some(true) && forall|j: int|
                    0 <= j < i ==> verdicts[j] != Some(true);
            assert(segments[i] == region);
            assert forall|j: int| 0 <= j < i implies !is_region_segment(
                #[trigger] segments[j],
            ) by {
                assert(verdicts[j] != Some(true));
            }
        },
        None => {
            assert forall|i: int| 0 <= i < segments.len() implies !is_region_segment(
                #[trigger] segments[i],
            ) by {
                assert(verdicts[i] != Some(true));
            }
        },
    }
}

/// Searches a host name for a region: the name is split at its dots and
/// the first segment that ends in a region code is the region. There is
/// none where no segment does.
pub fn find_region(host: &str) -> (region: Option<String>)
    ensures
        region.deep_view() == region_in(host@),
{
    let segments = split_str(host, '.');
    let mut verdicts: Vec<Option<bool>> = Vec::new();
    let mut i: usize = 0;
    while i < segments.len()
        invariant
            i <= segments.len(),
            verdicts@ == region_verdicts(segments.deep_view()).take(i as int),
        decreases segments.len() - i,
    {
        let verdict = is_match(REGION_PATTERN, segments[i].as_str());
        assert(segments[i as int]@ == segments.deep_view()[i as int]);
        verdicts.push(verdict);
        assert(verdicts@ =~= region_verdicts(segments.deep_view()).take(i + 1));
        i += 1;
    }
    assert(verdicts@ =~= region_verdicts(segments.deep_view()));
    select_region(&segments, &verdicts)
}

/// Searches the region in the cluster endpoint of `config`: it is the
/// region that the host of the endpoint URL carries.
pub fn extract_aws_region(config: &Config) -> (region: Option<String>)
    ensures
        region.deep_view() == region_of(config@.cluster_url),
{
    find_region(hostname(config.cluster_url.as_str()))
}

/// The name under which the environment of an exec credential plugin
/// carries the profile.
pub const PROFILE_KEY: &'static str = "AWS_PROFILE";

/// Whether an environment entry gives the profile: it is named
/// `PROFILE_KEY` and has a value.
pub open spec fn names_profile(var: ExecEnvVarView) -> bool {
    var.name == Some(PROFILE_KEY@) && var.value is Some
}

/// The profile that an environment gives: the value of its first entry
/// that gives one, and the empty name where no entry does.
pub open spec fn profile_in(env: Seq<ExecEnvVarView>) -> Seq<char>
    decreases env.len(),
{
    if env.len() == 0 {
        Seq::empty()
    } else if names_profile(env[0]) {
        env[0].value.unwrap()
    } else {
        profile_in(env.drop_first())
    }
}

/// The profile that a client configuration carries.
pub open spec fn profile_of(config: ConfigView) -> Seq<char> {
    profile_in(config.exec_env())
}

/// An environment whose entry at `i` is the first to give a profile gives
/// the value of that entry.
pub proof fn lemma_profile_found(env: Seq<ExecEnvVarView>, i: int)
    requires
        0 <= i < env.len(),
        names_profile(env[i]),
        forall|j: int| 0 <= j < i ==> !names_profile(env[j]),
    ensures
        profile_in(env) == env[i].value.unwrap(),
    decreases env.len(),
{
    if i > 0 {
        let rest = env.drop_first();
        assert(!names_profile(env[0]));
        assert forall|j: int| 0 <= j < i - 1 implies !names_profile(rest[j]) by {
            assert(rest[j] == env[j + 1]);
        }
        lemma_profile_found(rest, i - 1);
    }
}

/// An environment without an entry that gives a profile gives the empty
/// name.
pub proof fn lemma_profile_absent(env: Seq<ExecEnvVarView>)
    requires
        forall|j: int| 0 <= j < env.len() ==> !names_profile(env[j]),
    ensures
        profile_in(env) == Seq::<char>::empty(),
    decreases env.len(),
{
    if env.len() > 0 {
        let rest = env.drop_first();
        assert(!names_profile(env[0]));
        assert forall|j: int| 0 <= j < rest.len() implies !names_profile(rest[j]) by {
            assert(rest[j] == env[j + 1]);
        }
        lemma_profile_absent(rest);
    }
}

/// A configuration without an exec credential plugin, or with a plugin
/// without an environment, carries the empty profile.
pub proof fn lemma_profile_without_env(config: ConfigView)
    requires
        config.auth_info.exec_plugin is None || config.auth_info.exec_plugin.unwrap().env is None,
    ensures
        profile_of(config) == Seq::<char>::empty(),
{
}

/// Reads the profile off the environment of the exec credential plugin of
/// `config`. The profile is empty where the configuration has no plugin,
/// the plugin no environment, or the environment no entry named
/// `PROFILE_KEY` with a value.
pub fn extract_aws_profile(config: &Config) -> (profile: String)
    ensures
        profile@ == profile_of(config@),
{
    match &config.auth_info.exec_plugin {
        Some(plugin) => match &plugin.env {
            Some(env) => {
                let key = String::from_str(PROFILE_KEY);
                let ghost vars = env.deep_view();
                assert(vars == config@.exec_env());
                assert(vars.skip(0) =~= vars);
                let mut i: usize = 0;
                while i < env.len()
                    invariant
                        i <= env.len(),
                        key@ == PROFILE_KEY@,
                        vars == env.deep_view(),
                        vars == config@.exec_env(),
                        profile_in(vars) == profile_in(vars.skip(i as int)),
                    decreases env.len() - i,
                {
                    let ghost rest = vars.skip(i as int);
                    assert(rest[0] == env[i as int]@);
                    assert(rest.drop_first() =~= vars.skip(i + 1));
                    match (&env[i].name, &env[i].value) {
                        (Some(name), Some(value)) => {
                            if *name == key {
                                assert(rest[0].value == Some(value@));
                                return value.clone();
                            }
                        },
                        _ => {},
                    }
                    i += 1;
                }
                String::new()
            },
            None => String::new(),
        },
        None => String::new(),
    }
}

/// A compute instance as the cloud provider describes it, as far as the
/// inventory reads it. The provider may leave either field out.
#[derive(Debug, Clone, PartialEq, Eq)]
pub struct Instance {
    pub instance_id: Option<String>,
    pub private_dns_name: Option<String>,
}

/// The view of `Instance`: its fields as character sequences.
pub struct InstanceView {
    pub instance_id: Option<Seq<char>>,
    pub private_dns_name: Option<Seq<char>>,
}

impl View for Instance {
    type V = InstanceView;

    open spec fn view(&self) -> InstanceView {
        InstanceView {
            instance_id: self.instance_id.deep_view(),
            private_dns_name: self.private_dns_name.deep_view(),
        }
    }
}

impl DeepView for Instance {
    type V = InstanceView;

    open spec fn deep_view(&self) -> InstanceView {
        self@
    }
}

/// A reservation of the cloud provider: a group of instances.
#[derive(Debug, Clone, PartialEq, Eq)]
pub struct Reservation {
    pub instances: Vec<Instance>,
}

/// The view of `Reservation`: its fields as character sequences.
pub struct ReservationView {
    pub instances: Seq<InstanceView>,
}

impl View for Reservation {
    type V = ReservationView;

    open spec fn view(&self) -> ReservationView {
        ReservationView { instances: self.instances.deep_view() }
    }
}

impl DeepView for Reservation {
    type V = ReservationView;

    open spec fn deep_view(&self) -> ReservationView {
        self@
    }
}

/// Whether an instance can be listed in the inventory: it has both an
/// internal network name and an identifier.
pub open spec fn is_listed(instance: InstanceView) -> bool {
    instance.private_dns_name is Some && instance.instance_id is Some
}

/// The member instances of all reservations, in order.
pub open spec fn all_instances(reservations: Seq<ReservationView>) -> Seq<InstanceView>
    decreases reservations.len(),
{
    if reservations.len() == 0 {
        Seq::empty()
    } else {
        all_instances(reservations.drop_last()) + reservations.last().instances
    }
}

/// The inventory that a run of instances gives: every instance that can be
/// listed is listed under its internal network name, a later one in place
/// of an earlier one of the same name.
pub open spec fn inventory_of(instances: Seq<InstanceView>) -> Map<Seq<char>, Seq<char>>
    decreases instances.len(),
{
    if instances.len() == 0 {
        Map::empty()
    } else {
        let earlier = inventory_of(instances.drop_last());
        let last = instances.last();
        if is_listed(last) {
            earlier.insert(last.private_dns_name.unwrap(), last.instance_id.unwrap())
        } else {
            earlier
        }
    }
}

/// The inventory lists a name exactly where some instance that can be
/// listed carries it: instances that lack a field add nothing, and all
/// others are in.
pub proof fn lemma_inventory_names(instances: Seq<InstanceView>, name: Seq<char>)
    ensures
        inventory_of(instances).contains_key(name) <==> exists|i: int|
            0 <= i < instances.len() && is_listed(#[trigger] instances[i])
                && instances[i].private_dns_name == Some(name),
    decreases instances.len(),
{
    if instances.len() > 0 {
        let earlier = instances.drop_last();
        let last = instances.last();
        lemma_inventory_names(earlier, name);
        if inventory_of(instances).contains_key(name) {
            if is_listed(last) && last.private_dns_name == Some(name) {
                assert(instances[instances.len() - 1] == last);
            } else {
                let i = choose|i: int|
                    0 <= i < earlier.len() && is_listed(#[trigger] earlier[i])
                        && earlier[i].private_dns_name == Some(name);
                assert(instances[i] == earlier[i]);
            }
        }
        if exists|i: int|
            0 <= i < instances.len() && is_listed(#[trigger] instances[i])
                && instances[i].private_dns_name == Some(name) {
            let i = choose|i: int|
                0 <= i < instances.len() && is_listed(#[trigger] instances[i])
                    && instances[i].private_dns_name == Some(name);
            if i < earlier.len() {
                assert(earlier[i] == instances[i]);
            }
        }
    }
}

/// The identifier listed under a name is that of the last instance that
/// carries the name and can be listed.
pub proof fn lemma_inventory_value(instances: Seq<InstanceView>, i: int)
    requires
        0 <= i < instances.len(),
        is_listed(instances[i]),
        forall|j: int|
            i < j < instances.len() && is_listed(#[trigger] instances[j])
                ==> instances[j].private_dns_name != instances[i].private_dns_name,
    ensures
        inventory_of(instances).contains_key(instances[i].private_dns_name.unwrap()),
        inventory_of(instances)[instances[i].private_dns_name.unwrap()]
            == instances[i].instance_id.unwrap(),
    decreases instances.len(),
{
    let earlier = instances.drop_last();
    let last = instances.last();
    if i < instances.len() - 1 {
        assert(earlier[i] == instances[i]);
        assert forall|j: int| i < j < earlier.len() && is_listed(#[trigger] earlier[j]) implies
            earlier[j].private_dns_name != earlier[i].private_dns_name by {
            assert(earlier[j] == instances[j]);
        }
        lemma_inventory_value(earlier, i);
        assert(instances[instances.len() - 1] == last);
    }
}

/// Builds the inventory from the reservations that the cloud provider
/// describes. Every instance with both an internal network name and an
/// identifier is listed under its name; instances that lack either are
/// passed over. Of two instances of one name the later one is listed.
pub fn get_ec2_node_ips(reservations: &Vec<Reservation>) -> (node_ips: InstanceInventory)
    ensures
        node_ips@ == inventory_of(all_instances(reservations.deep_view())),
{
    let ghost groups = reservations.deep_view();
    let mut node_ips = InstanceInventory::new();
    let mut r: usize = 0;
    assert(groups.take(0) =~= Seq::<ReservationView>::empty());
    while r < reservations.len()
        invariant
            r <= reservations.len(),
            groups == reservations.deep_view(),
            node_ips@ == inventory_of(all_instances(groups.take(r as int))),
        decreases reservations.len() - r,
    {
        let instances = &reservations[r].instances;
        let ghost before = all_instances(groups.take(r as int));
        let ghost members = instances.deep_view();
        assert(groups[r as int] == reservations[r as int]@);
        assert(before + members.take(0) =~= before);
        let mut k: usize = 0;
        while k < instances.len()
            invariant
                k <= instances.len(),
                members == instances.deep_view(),
                node_ips@ == inventory_of(before + members.take(k as int)),
            decreases instances.len() - k,
        {
            let ghost seen = before + members.take(k as int);
            assert(members[k as int] == instances[k as int]@);
            assert(before + members.take(k + 1) =~= seen.push(members[k as int]));
            assert(seen.push(members[k as int]).drop_last() =~= seen);
            match (&instances[k].private_dns_name, &instances[k].instance_id) {
                (Some(name), Some(id)) => {
                    node_ips.insert(name.clone(), id.clone());
                },
                _ => {},
            }
            k += 1;
        }
        proof {
            assert(members.take(k as int) =~= members);
            assert(groups.take(r + 1).drop_last() =~= groups.take(r as int));
            assert(groups.take(r + 1).last() == groups[r as int]);
        }
        r += 1;
    }
    assert(groups.take(r as int) =~= groups);
    node_ips
}

/// What looking `node` up in an inventory gives: the identifier listed
/// under it, or a failure that names the node.
pub open spec fn resolve(inventory: Map<Seq<char>, Seq<char>>, node: Seq<char>) -> Result<
    Seq<char>,
    ErrorView,
> {
    if inventory.contains_key(node) {
        Ok(inventory[node])
    } else {
        Err(ErrorView::InstanceNotFound { node })
    }
}

/// The view of a lookup's outcome.
pub open spec fn resolution_view(outcome: Result<String, Error>) -> Result<Seq<char>, ErrorView> {
    match outcome {
        Ok(id) => Ok(id@),
        Err(error) => Err(error@),
    }
}

/// Looks the node up in the inventory. Gives the identifier listed under
/// the node's name, unchanged, or fails with the name where the inventory
/// does not list it.
pub fn get_ec2_instance_id(node_private_ip: String, ec2_node_ips: &InstanceInventory) -> (outcome:
    Result<String, Error>)
    ensures
        resolution_view(outcome) == resolve(ec2_node_ips@, node_private_ip@),
{
    match ec2_node_ips.get(&node_private_ip) {
        Some(id) => Ok(id.clone()),
        None => Err(Error::InstanceNotFound { node: node_private_ip }),
    }
}

} // verus!
