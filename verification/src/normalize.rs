//! Normalization: from raw provider records to flat [`AshufInfo`] snapshots.
//!
//! Addresses found both on a network interface and as a top-level field
//! collapse to one entry; tag pairs flatten to a unique-key list; a record
//! missing any required field fails with the name of that field.

use vstd::prelude::*;

use crate::errors::{NormalizationError, RequiredField};
use crate::instance::{distinct_tag_keys, AshufInfo, Tag};
use crate::raw::{
    RawInstanceRecord, RawNetworkInterface, RawPlacement, RawReservation, RawState, RawTag,
};

verus! {

/// The texts of a list of strings, in order.
pub open spec fn seq_views(s: Seq<String>) -> Seq<Seq<char>> {
    s.map_values(|x: String| x@)
}

/// First-occurrence deduplication: keeps each text at the position of its
/// earliest occurrence and drops every repeat.
pub open spec fn dedup(s: Seq<Seq<char>>) -> Seq<Seq<char>>
    decreases s.len(),
{
    if s.len() == 0 {
        Seq::empty()
    } else {
        let rest = dedup(s.drop_last());
        if rest.contains(s.last()) {
            rest
        } else {
            rest.push(s.last())
        }
    }
}

/// Appending one candidate extends the deduplicated list exactly when the
/// candidate is new.
proof fn lemma_dedup_snoc(s: Seq<Seq<char>>, x: Seq<char>)
    ensures
        dedup(s + seq![x]) == (if dedup(s).contains(x) {
            dedup(s)
        } else {
            dedup(s).push(x)
        }),
{
    let t = s + seq![x];
    assert(t.drop_last() =~= s);
    assert(t.last() == x);
}

/// A deduplicated list holds no text twice.
pub proof fn lemma_dedup_distinct(s: Seq<Seq<char>>)
    ensures
        forall|i: int, j: int| 0 <= i < j < dedup(s).len() ==> dedup(s)[i] != dedup(s)[j],
    decreases s.len(),
{
    if s.len() > 0 {
        lemma_dedup_distinct(s.drop_last());
        let rest = dedup(s.drop_last());
        if !rest.contains(s.last()) {
            assert forall|i: int, j: int|
                0 <= i < j < dedup(s).len() implies dedup(s)[i] != dedup(s)[j] by {
                if j < rest.len() {
                } else {
                    assert(dedup(s)[i] == rest[i]);
                    assert(!rest.contains(dedup(s)[j]));
                }
            }
        }
    }
}

/// Deduplication keeps exactly the texts of its input: each occurs in the
/// output if and only if it occurred in the input.
pub proof fn lemma_dedup_complete(s: Seq<Seq<char>>, x: Seq<char>)
    ensures
        dedup(s).contains(x) <==> s.contains(x),
    decreases s.len(),
{
    if s.len() > 0 {
        lemma_dedup_complete(s.drop_last(), x);
        assert(s.contains(x) <==> (s.drop_last().contains(x) || s.last() == x)) by {
            if s.contains(x) {
                let i = choose|i: int| 0 <= i < s.len() && s[i] == x;
                if i < s.len() - 1 {
                    assert(s.drop_last()[i] == x);
                }
            }
            if s.drop_last().contains(x) {
                let i = choose|i: int| 0 <= i < s.drop_last().len() && s.drop_last()[i] == x;
                assert(s[i] == x);
            }
        }
        let rest = dedup(s.drop_last());
        if rest.contains(s.last()) {
        } else if s.last() == x {
            assert(dedup(s)[dedup(s).len() - 1] == x);
        } else {
            if dedup(s).contains(x) {
                let i = choose|i: int| 0 <= i < dedup(s).len() && dedup(s)[i] == x;
                assert(rest[i] == x);
            }
            if rest.contains(x) {
                let i = choose|i: int| 0 <= i < rest.len() && rest[i] == x;
                assert(dedup(s)[i] == x);
            }
        }
    }
}

/// The private addresses carried by a list of network interfaces, in order.
pub open spec fn interface_ip_views(nis: Seq<RawNetworkInterface>) -> Seq<Seq<char>>
    decreases nis.len(),
{
    if nis.len() == 0 {
        Seq::empty()
    } else {
        interface_ip_views(nis.drop_last()) + (match nis.last().private_ip_address {
            Some(a) => seq![a@],
            None => Seq::empty(),
        })
    }
}

/// Zero or one texts, from an optional string.
pub open spec fn opt_view(o: Option<String>) -> Seq<Seq<char>> {
    match o {
        Some(a) => seq![a@],
        None => Seq::empty(),
    }
}

/// Every private address a raw record mentions, interface addresses first,
/// then the top-level one, repeats included.
pub open spec fn private_candidates(inst: RawInstanceRecord) -> Seq<Seq<char>> {
    (match inst.network_interfaces {
        Some(nis) => interface_ip_views(nis@),
        None => Seq::empty(),
    }) + opt_view(inst.private_ip_address)
}

/// Every public address a raw record mentions: only the top-level field.
pub open spec fn public_candidates(inst: RawInstanceRecord) -> Seq<Seq<char>> {
    opt_view(inst.public_ip_address)
}

/// Whether `v` already holds a string reading `s`.
fn contains_string(v: &Vec<String>, s: &String) -> (r: bool)
    ensures
        r == seq_views(v@).contains(s@),
{
    let len = v.len();
    let mut i: usize = 0;
    while i < len
        invariant
            0 <= i <= len,
            len == v.len(),
            forall|j: int| 0 <= j < i ==> v@[j]@ != s@,
        decreases len - i,
    {
        if v[i] == *s {
            assert(seq_views(v@)[i as int] == s@);
            return true;
        }
        i = i + 1;
    }
    assert forall|j: int| 0 <= j < seq_views(v@).len() implies seq_views(v@)[j] != s@ by {
        assert(seq_views(v@)[j] == v@[j]@);
    }
    false
}

/// Appends a copy of `addr` unless an equal text is already present.
fn push_unique(out: &mut Vec<String>, addr: &String)
    ensures
        seq_views(final (out)@) == (if seq_views(old(out)@).contains(addr@) {
            seq_views(old(out)@)
        } else {
            seq_views(old(out)@).push(addr@)
        }),
{
    if !contains_string(out, addr) {
        let ghost before = out@;
        out.push(addr.clone());
        assert(seq_views(out@) =~= seq_views(before).push(addr@));
    }
}

/// Extracts the deduplicated private and public address lists of one raw
/// record.  A host may carry both an interface-attached address and a
/// top-level one; an address present in both places appears once.
pub fn ip_addresses_of(instance: &RawInstanceRecord) -> (r: (Vec<String>, Vec<String>))
    ensures
        seq_views(r.0@) == dedup(private_candidates(*instance)),
        seq_views(r.1@) == dedup(public_candidates(*instance)),
{
    let mut private: Vec<String> = Vec::new();
    let mut public: Vec<String> = Vec::new();
    assert(seq_views(private@) =~= dedup(Seq::empty()));
    assert(seq_views(public@) =~= dedup(Seq::empty()));

    if let Some(nis) = &instance.network_interfaces {
        let len = nis.len();
        let mut i: usize = 0;
        assert(nis@.subrange(0, 0) =~= Seq::<RawNetworkInterface>::empty());
        while i < len
            invariant
                0 <= i <= len,
                len == nis.len(),
                seq_views(private@) == dedup(interface_ip_views(nis@.subrange(0, i as int))),
                public@.len() == 0,
            decreases len - i,
        {
            let ghost processed = nis@.subrange(0, i as int);
            assert(nis@.subrange(0, i + 1).drop_last() =~= processed);
            assert(nis@.subrange(0, i + 1).last() == nis@[i as int]);
            if let Some(addr) = &nis[i].private_ip_address {
                proof {
                    lemma_dedup_snoc(interface_ip_views(processed), addr@);
                    assert(interface_ip_views(nis@.subrange(0, i + 1)) =~= interface_ip_views(
                        processed,
                    ) + seq![addr@]);
                }
                push_unique(&mut private, addr);
            } else {
                assert(interface_ip_views(nis@.subrange(0, i + 1)) =~= interface_ip_views(
                    processed,
                ));
            }
            i = i + 1;
        }
        assert(nis@.subrange(0, len as int) =~= nis@);
    }

    let ghost iface_part = match &instance.network_interfaces {
        Some(nis) => interface_ip_views(nis@),
        None => Seq::<Seq<char>>::empty(),
    };
    assert(seq_views(private@) == dedup(iface_part));

    if let Some(addr) = &instance.private_ip_address {
        proof {
            lemma_dedup_snoc(iface_part, addr@);
            assert(private_candidates(*instance) =~= iface_part + seq![addr@]);
        }
        push_unique(&mut private, addr);
    } else {
        assert(private_candidates(*instance) =~= iface_part);
    }

    if let Some(addr) = &instance.public_ip_address {
        proof {
            lemma_dedup_snoc(Seq::empty(), addr@);
            assert(public_candidates(*instance) =~= Seq::<Seq<char>>::empty() + seq![addr@]);
        }
        push_unique(&mut public, addr);
    } else {
        assert(public_candidates(*instance) =~= Seq::<Seq<char>>::empty());
    }

    (private, public)
}

/// Whether a flattened tag list already carries `key`.
pub open spec fn spec_has_key(tags: Seq<Tag>, key: Seq<char>) -> bool {
    exists|i: int| 0 <= i < tags.len() && tags[i].key@ == key
}

/// Flattening of raw tag pairs into a unique-key list: a pair missing either
/// half is dropped, and of two pairs with the same key the earlier wins.
pub open spec fn flatten_tags(pairs: Seq<RawTag>) -> Seq<Tag>
    decreases pairs.len(),
{
    if pairs.len() == 0 {
        Seq::empty()
    } else {
        let rest = flatten_tags(pairs.drop_last());
        match (pairs.last().key, pairs.last().value) {
            (Some(k), Some(v)) => if spec_has_key(rest, k@) {
                rest
            } else {
                rest.push(Tag { key: k, value: v })
            },
            _ => rest,
        }
    }
}

/// The raw tag pairs of a record, or none.
pub open spec fn raw_tag_pairs(inst: RawInstanceRecord) -> Seq<RawTag> {
    match inst.tags {
        Some(pairs) => pairs@,
        None => Seq::empty(),
    }
}

/// A flattened tag list carries each key at most once.
pub proof fn lemma_flatten_tags_distinct(pairs: Seq<RawTag>)
    ensures
        distinct_tag_keys(flatten_tags(pairs)),
    decreases pairs.len(),
{
    if pairs.len() > 0 {
        lemma_flatten_tags_distinct(pairs.drop_last());
        let rest = flatten_tags(pairs.drop_last());
        let flat = flatten_tags(pairs);
        if flat != rest {
            assert forall|i: int, j: int|
                0 <= i < j < flat.len() implies flat[i].key@ != flat[j].key@ by {
                if j == flat.len() - 1 {
                    assert(flat[i] == rest[i]);
                    assert(!spec_has_key(rest, flat[j].key@));
                }
            }
        }
    }
}

/// Whether `tags` already carries `key`.
fn has_key(tags: &Vec<Tag>, key: &String) -> (r: bool)
    ensures
        r == spec_has_key(tags@, key@),
{
    let len = tags.len();
    let mut i: usize = 0;
    while i < len
        invariant
            0 <= i <= len,
            len == tags.len(),
            forall|j: int| 0 <= j < i ==> tags@[j].key@ != key@,
        decreases len - i,
    {
        if tags[i].key == *key {
            return true;
        }
        i = i + 1;
    }
    false
}

/// Flattens a record's raw tag pairs into the unique-key list the matcher
/// consumes.  A pair missing its key or its value is silently dropped; it is
/// not a malformed record.
pub fn tags_of(instance: &RawInstanceRecord) -> (r: Vec<Tag>)
    ensures
        r@ == flatten_tags(raw_tag_pairs(*instance)),
        distinct_tag_keys(r@),
{
    let mut out: Vec<Tag> = Vec::new();
    if let Some(pairs) = &instance.tags {
        let len = pairs.len();
        let mut i: usize = 0;
        assert(pairs@.subrange(0, 0) =~= Seq::<RawTag>::empty());
        assert(out@ =~= flatten_tags(pairs@.subrange(0, 0)));
        while i < len
            invariant
                0 <= i <= len,
                len == pairs.len(),
                out@ == flatten_tags(pairs@.subrange(0, i as int)),
            decreases len - i,
        {
            proof {
                assert(pairs@.subrange(0, i + 1).drop_last() =~= pairs@.subrange(0, i as int));
                assert(pairs@.subrange(0, i + 1).last() == pairs@[i as int]);
            }
            if let Some(key) = &pairs[i].key {
                if let Some(value) = &pairs[i].value {
                    if !has_key(&out, key) {
                        out.push(Tag { key: key.clone(), value: value.clone() });
                    }
                }
            }
            i = i + 1;
        }
        assert(pairs@.subrange(0, len as int) =~= pairs@);
    }
    proof {
        lemma_flatten_tags_distinct(raw_tag_pairs(*instance));
    }
    out
}

/// The lifecycle state name of a raw record, if both the state and its name
/// are present.
pub open spec fn state_name_of(inst: RawInstanceRecord) -> Option<String> {
    match inst.state {
        Some(s) => s.name,
        None => None,
    }
}

/// The availability zone of a raw record, if both the placement and its zone
/// are present.
pub open spec fn availability_zone_of(inst: RawInstanceRecord) -> Option<String> {
    match inst.placement {
        Some(p) => p.availability_zone,
        None => None,
    }
}

/// The first required field a raw record lacks, if any, in the order the
/// fields are checked: identifier, state name, launch time, availability
/// zone, image.
pub open spec fn missing_field(inst: RawInstanceRecord) -> Option<RequiredField> {
    if inst.instance_id is None {
        Some(RequiredField::InstanceId)
    } else if state_name_of(inst) is None {
        Some(RequiredField::StateName)
    } else if inst.launch_time is None {
        Some(RequiredField::LaunchTime)
    } else if availability_zone_of(inst) is None {
        Some(RequiredField::AvailabilityZone)
    } else if inst.image_id is None {
        Some(RequiredField::ImageId)
    } else {
        None
    }
}

/// What a successful normalization promises: every flat field carries the
/// source record's value, the address lists are the deduplicated candidate
/// lists, the tags are the flattened pairs, and the snapshot is well-formed.
pub open spec fn normalized_from(info: AshufInfo, inst: RawInstanceRecord) -> bool {
    &&& info.instance_id == inst.instance_id.unwrap()
    &&& seq_views(info.private_ip_addresses@) == dedup(private_candidates(inst))
    &&& seq_views(info.public_ip_addresses@) == dedup(public_candidates(inst))
    &&& info.state_name == state_name_of(inst).unwrap()
    &&& info.launch_time == inst.launch_time.unwrap()
    &&& info.availability_zone == availability_zone_of(inst).unwrap()
    &&& info.image_ami == inst.image_id.unwrap()
    &&& info.tags@ == flatten_tags(raw_tag_pairs(inst))
    &&& info.wf()
}

/// Normalizes one raw record.  Succeeds exactly when every required field is
/// present; otherwise fails naming the first absent field.  A missing
/// address or tag is never an error.
pub fn normalize_instance(instance: RawInstanceRecord) -> (r: Result<
    AshufInfo,
    NormalizationError,
>)
    ensures
        match missing_field(instance) {
            Some(f) => r == Err::<AshufInfo, NormalizationError>(NormalizationError::MissingField(
                f,
            )),
            None => r matches Ok(info) && normalized_from(info, instance),
        },
{
    let (private_ips, public_ips) = ip_addresses_of(&instance);
    let tags = tags_of(&instance);
    proof {
        lemma_dedup_distinct(private_candidates(instance));
        lemma_dedup_distinct(public_candidates(instance));
    }

    let RawInstanceRecord { instance_id, state, launch_time, placement, image_id, .. } = instance;

    let instance_id = match instance_id {
        Some(x) => x,
        None => {
            return Err(NormalizationError::MissingField(RequiredField::InstanceId));
        },
    };
    let state_name = match state {
        Some(RawState { name: Some(x) }) => x,
        _ => {
            return Err(NormalizationError::MissingField(RequiredField::StateName));
        },
    };
    let launch_time = match launch_time {
        Some(x) => x,
        None => {
            return Err(NormalizationError::MissingField(RequiredField::LaunchTime));
        },
    };
    let availability_zone = match placement {
        Some(RawPlacement { availability_zone: Some(x) }) => x,
        _ => {
            return Err(NormalizationError::MissingField(RequiredField::AvailabilityZone));
        },
    };
    let image_ami = match image_id {
        Some(x) => x,
        None => {
            return Err(NormalizationError::MissingField(RequiredField::ImageId));
        },
    };

    let info = AshufInfo {
        instance_id,
        private_ip_addresses: private_ips,
        public_ip_addresses: public_ips,
        state_name,
        launch_time,
        availability_zone,
        image_ami,
        tags,
    };
    proof {
        assert forall|i: int, j: int|
            0 <= i < j < info.private_ip_addresses@.len() implies info.private_ip_addresses@[i]@
            != info.private_ip_addresses@[j]@ by {
            assert(seq_views(info.private_ip_addresses@)[i] == info.private_ip_addresses@[i]@);
            assert(seq_views(info.private_ip_addresses@)[j] == info.private_ip_addresses@[j]@);
        }
        assert forall|i: int, j: int|
            0 <= i < j < info.public_ip_addresses@.len() implies info.public_ip_addresses@[i]@
            != info.public_ip_addresses@[j]@ by {
            assert(seq_views(info.public_ip_addresses@)[i] == info.public_ip_addresses@[i]@);
            assert(seq_views(info.public_ip_addresses@)[j] == info.public_ip_addresses@[j]@);
        }
    }
    Ok(info)
}

/// What a successful list normalization promises: every record normalized,
/// one snapshot per record, in order.
pub open spec fn all_normalized(insts: Seq<RawInstanceRecord>, list: Seq<AshufInfo>) -> bool {
    &&& list.len() == insts.len()
    &&& forall|i: int| 0 <= i < insts.len() ==> (#[trigger] missing_field(insts[i])) is None
    &&& forall|i: int| 0 <= i < insts.len() ==> normalized_from(#[trigger] list[i], insts[i])
}

/// What a failed list normalization promises: `e` names the first absent
/// required field of the earliest record that does not normalize.
pub open spec fn first_normalization_error(
    insts: Seq<RawInstanceRecord>,
    e: NormalizationError,
) -> bool {
    exists|i: int|
        0 <= i < insts.len() && (#[trigger] missing_field(insts[i])) is Some && e
            == NormalizationError::MissingField(missing_field(insts[i])->Some_0) && (forall|j: int|
            0 <= j < i ==> missing_field(insts[j]) is None)
}

/// Normalizes a fetched list of raw records in order.  Succeeds with one
/// snapshot per record exactly when every record normalizes; otherwise fails
/// with the error of the earliest record that does not, and no partial list
/// escapes.
pub fn ashuf_info_list(instances: Vec<RawInstanceRecord>) -> (r: Result<
    Vec<AshufInfo>,
    NormalizationError,
>)
    ensures
        match r {
            Ok(list) => all_normalized(instances@, list@),
            Err(e) => first_normalization_error(instances@, e),
        },
{
    let ghost orig = instances@;
    let mut instances = instances;
    let mut out: Vec<AshufInfo> = Vec::new();
    let mut i: usize = 0;
    let n: usize = instances.len();
    assert(orig.len() == n);
    assert(instances@ =~= orig.subrange(0, orig.len() as int));
    #[verifier::loop_isolation(false)]
    while instances.len() > 0
        invariant
            0 <= i <= orig.len(),
            orig.len() <= usize::MAX,
            instances@ =~= orig.subrange(i as int, orig.len() as int),
            out@.len() == i,
            forall|j: int| 0 <= j < i ==> (#[trigger] missing_field(orig[j])) is None,
            forall|j: int| 0 <= j < i ==> normalized_from(#[trigger] out@[j], orig[j]),
        decreases instances.len(),
    {
        let inst = instances.remove(0);
        proof {
            assert(inst == orig[i as int]);
            assert(instances@ =~= orig.subrange(i + 1, orig.len() as int));
        }
        match normalize_instance(inst) {
            Ok(info) => {
                proof {
                    assert(missing_field(orig[i as int]) is None);
                    assert(normalized_from(info, orig[i as int]));
                }
                out.push(info);
            },
            Err(e) => {
                proof {
                    let k = i as int;
                    assert(0 <= k < orig.len());
                    assert(missing_field(orig[k]) is Some);
                    assert(e == NormalizationError::MissingField(missing_field(orig[k])->Some_0));
                    assert(first_normalization_error(orig, e));
                }
                return Err(e);
            },
        }
        i = i + 1;
    }
    proof {
        assert(all_normalized(orig, out@));
    }
    Ok(out)
}

/// The instances of a reservation list, in order, reservations flattened
/// away.
pub open spec fn flatten_reservations(rs: Seq<RawReservation>) -> Seq<RawInstanceRecord>
    decreases rs.len(),
{
    if rs.len() == 0 {
        Seq::empty()
    } else {
        flatten_reservations(rs.drop_last()) + (match rs.last().instances {
            Some(v) => v@,
            None => Seq::empty(),
        })
    }
}

/// Strips the provider's reservation grouping, leaving the raw instances in
/// the order the reservations carried them.
pub fn ec2_res_to_instances(reservations: Vec<RawReservation>) -> (r: Vec<RawInstanceRecord>)
    ensures
        r@ == flatten_reservations(reservations@),
{
    let ghost orig = reservations@;
    let mut reservations = reservations;
    let mut out: Vec<RawInstanceRecord> = Vec::new();
    let mut i: usize = 0;
    let n: usize = reservations.len();
    assert(orig.len() == n);
    assert(reservations@ =~= orig.subrange(0, orig.len() as int));
    assert(out@ =~= flatten_reservations(orig.subrange(0, 0)));
    while reservations.len() > 0
        invariant
            0 <= i <= orig.len(),
            orig.len() <= usize::MAX,
            reservations@ =~= orig.subrange(i as int, orig.len() as int),
            out@ == flatten_reservations(orig.subrange(0, i as int)),
        decreases reservations.len(),
    {
        let res = reservations.remove(0);
        proof {
            assert(res == orig[i as int]);
            assert(reservations@ =~= orig.subrange(i + 1, orig.len() as int));
            assert(orig.subrange(0, i + 1).drop_last() =~= orig.subrange(0, i as int));
            assert(orig.subrange(0, i + 1).last() == orig[i as int]);
        }
        if let Some(mut v) = res.instances {
            out.append(&mut v);
        } else {
            assert(out@ =~= flatten_reservations(orig.subrange(0, i + 1)));
        }
        i = i + 1;
    }
    assert(orig.subrange(0, orig.len() as int) =~= orig);
    out
}

} // verus!
