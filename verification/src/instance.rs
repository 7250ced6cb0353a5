//! The flat, provider-independent snapshot of one compute instance, and the
//! spec-level model of its tag mapping.

use vstd::prelude::*;

verus! {

/// One tag pair on an instance.
#[derive(Debug, PartialEq, Eq)]
pub struct Tag {
    pub key: String,
    pub value: String,
}

/// Immutable snapshot of one compute instance, flattened from the provider's
/// nested record shape.  Addresses are deduplicated; tag keys are unique.
#[derive(Debug, PartialEq, Eq)]
pub struct AshufInfo {
    pub instance_id: String,
    pub private_ip_addresses: Vec<String>,
    pub public_ip_addresses: Vec<String>,
    pub state_name: String,
    pub launch_time: String,
    pub availability_zone: String,
    pub image_ami: String,
    pub tags: Vec<Tag>,
}

impl Clone for Tag {
    /// A clone carries the same key and value.
    fn clone(&self) -> (r: Self)
        ensures
            r == *self,
    {
        Tag { key: self.key.clone(), value: self.value.clone() }
    }
}

impl Clone for AshufInfo {
    /// A clone is the same snapshot: every scalar field is equal and every
    /// list field holds the same elements in the same order.
    fn clone(&self) -> (r: Self)
        ensures
            r.instance_id == self.instance_id,
            r.private_ip_addresses@ == self.private_ip_addresses@,
            r.public_ip_addresses@ == self.public_ip_addresses@,
            r.state_name == self.state_name,
            r.launch_time == self.launch_time,
            r.availability_zone == self.availability_zone,
            r.image_ami == self.image_ami,
            r.tags@ == self.tags@,
    {
        let private_ip_addresses = self.private_ip_addresses.clone();
        let public_ip_addresses = self.public_ip_addresses.clone();
        let tags = self.tags.clone();
        proof {
            assert(private_ip_addresses@ =~= self.private_ip_addresses@);
            assert(public_ip_addresses@ =~= self.public_ip_addresses@);
            assert(tags@ =~= self.tags@);
        }
        AshufInfo {
            instance_id: self.instance_id.clone(),
            private_ip_addresses,
            public_ip_addresses,
            state_name: self.state_name.clone(),
            launch_time: self.launch_time.clone(),
            availability_zone: self.availability_zone.clone(),
            image_ami: self.image_ami.clone(),
            tags,
        }
    }
}

/// The value the tag list associates with `key`: the value of the first pair
/// whose key reads `key`, if any.  Under [`AshufInfo::wf`] the keys are
/// unique, so "first" is the only one.
pub open spec fn spec_tag_lookup(tags: Seq<Tag>, key: Seq<char>) -> Option<Seq<char>>
    decreases tags.len(),
{
    if tags.len() == 0 {
        None
    } else if tags[0].key@ == key {
        Some(tags[0].value@)
    } else {
        spec_tag_lookup(tags.drop_first(), key)
    }
}

/// No two entries of `s` read the same text.
pub open spec fn distinct_strings(s: Seq<String>) -> bool {
    forall|i: int, j: int| 0 <= i < j < s.len() ==> s[i]@ != s[j]@
}

/// No two tag pairs carry the same key.
pub open spec fn distinct_tag_keys(tags: Seq<Tag>) -> bool {
    forall|i: int, j: int| 0 <= i < j < tags.len() ==> tags[i].key@ != tags[j].key@
}

impl AshufInfo {
    /// Well-formedness: both address lists are free of duplicates and the
    /// tag keys are unique.  Normalization establishes this for every record
    /// it produces.
    pub open spec fn wf(&self) -> bool {
        &&& distinct_strings(self.private_ip_addresses@)
        &&& distinct_strings(self.public_ip_addresses@)
        &&& distinct_tag_keys(self.tags@)
    }

    /// The value of the tag named `key`, if the instance carries it.
    pub fn tag_value<'a>(&'a self, key: &String) -> (r: Option<&'a String>)
        ensures
            match r {
                Some(v) => spec_tag_lookup(self.tags@, key@) == Some(v@),
                None => spec_tag_lookup(self.tags@, key@) is None,
            },
    {
        tag_lookup(&self.tags, key)
    }
}

/// If the head pair does not carry `key`, the lookup is decided by the rest.
proof fn lemma_tag_lookup_skip(tags: Seq<Tag>, key: Seq<char>, i: int)
    requires
        0 <= i < tags.len(),
        tags[i].key@ != key,
        spec_tag_lookup(tags, key) == spec_tag_lookup(tags.subrange(i, tags.len() as int), key),
    ensures
        spec_tag_lookup(tags, key) == spec_tag_lookup(tags.subrange(i + 1, tags.len() as int), key),
{
    let tail = tags.subrange(i, tags.len() as int);
    assert(tail[0] == tags[i]);
    assert(tail.drop_first() =~= tags.subrange(i + 1, tags.len() as int));
}

/// First-match lookup of `key` in a tag list.
pub fn tag_lookup<'a>(tags: &'a Vec<Tag>, key: &String) -> (r: Option<&'a String>)
    ensures
        match r {
            Some(v) => spec_tag_lookup(tags@, key@) == Some(v@),
            None => spec_tag_lookup(tags@, key@) is None,
        },
{
    let len = tags.len();
    let mut i: usize = 0;
    assert(tags@.subrange(0, len as int) =~= tags@);
    while i < len
        invariant
            0 <= i <= len,
            len == tags.len(),
            spec_tag_lookup(tags@, key@) == spec_tag_lookup(
                tags@.subrange(i as int, len as int),
                key@,
            ),
        decreases len - i,
    {
        if tags[i].key == *key {
            assert(tags@.subrange(i as int, len as int)[0] == tags@[i as int]);
            return Some(&tags[i].value);
        }
        proof {
            lemma_tag_lookup_skip(tags@, key@, i as int);
        }
        i = i + 1;
    }
    assert(tags@.subrange(len as int, len as int).len() == 0);
    None
}

} // verus!
