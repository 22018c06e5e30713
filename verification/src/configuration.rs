//! The user's configuration: where to listen, and which tag names which motor.
use crate::motor::{Motor, MotorView};
use crate::named_map::NamedMap;
use vstd::prelude::*;

verus! {

/// The port to listen on where the user has chosen none.
pub const DEFAULT_PORT: u16 = 3031;

/// The user's configuration.
#[derive(Debug)]
pub struct Configuration {
    pub port: u16,
    pub tags: NamedMap<Motor>,
}

/// What a configuration says: the port, and the tags with their motors.
pub struct ConfigurationView {
    pub port: u16,
    pub tags: Seq<(Seq<char>, MotorView)>,
}

impl ConfigurationView {
    /// The motor of each tag.
    pub open spec fn tag_map(self) -> Map<Seq<char>, MotorView> {
        crate::named_map::to_map(self.tags)
    }
}

impl View for Configuration {
    type V = ConfigurationView;

    open spec fn view(&self) -> ConfigurationView {
        ConfigurationView { port: self.port, tags: self.tags.listing() }
    }
}

impl Default for Configuration {
    fn default() -> (configuration: Configuration)
        ensures
            configuration@.port == DEFAULT_PORT,
            configuration@.tags == Seq::<(Seq<char>, MotorView)>::empty(),
    {
        Configuration { port: DEFAULT_PORT, tags: NamedMap::new() }
    }
}

impl Clone for Configuration {
    fn clone(&self) -> (copy: Configuration)
        ensures
            copy@ == self@,
    {
        let mut tags: NamedMap<Motor> = NamedMap::new();
        let count: usize = self.tags.len();
        let ghost listing = self.tags.listing();
        assert(listing.take(0) =~= Seq::empty());
        let mut i: usize = 0;
        while i < count
            invariant
                i <= count,
                count == listing.len(),
                listing == self.tags.listing(),
                crate::named_map::distinct_names(listing),
                tags.listing() == listing.take(i as int),
            decreases count - i,
        {
            let (tag, motor) = self.tags.entry(i);
            proof {
                let known = listing.take(i as int);
                if crate::named_map::has_name(known, tag@) {
                    let p = crate::named_map::place_of(known, tag@);
                    assert(known[p].0 == tag@);
                    assert(listing[p].0 == listing[i as int].0);
                }
                assert(listing.take(i + 1) =~= known.push(listing[i as int]));
            }
            tags.insert(tag.to_owned(), motor.clone());
            i = i + 1;
        }
        assert(listing.take(count as int) =~= listing);
        Configuration { port: self.port, tags }
    }
}

impl Configuration {
    /// The motor that a tag names.
    pub fn motor_from_tag(&self, tag: &str) -> (motor: Option<&Motor>)
        ensures
            match motor {
                Some(motor) => self@.tag_map().contains_key(tag@) && motor@
                    == self@.tag_map()[tag@],
                None => !self@.tag_map().contains_key(tag@),
            },
    {
        self.tags.get(tag)
    }
}

/// The view of a configuration says all of it.
pub proof fn law_view_of_configuration(configuration: Configuration)
    ensures
        configuration@.port == configuration.port,
        configuration@.tags == configuration.tags.listing(),
{
}

/// A tag names the motor beside it in the list of tags, and a tag that is not there
/// names none.
pub proof fn law_tags_name_their_motors(configuration: ConfigurationView, tag: Seq<char>, i: int)
    requires
        forall|j: int, k: int|
            0 <= j < k < configuration.tags.len() ==> (#[trigger] configuration.tags[j]).0 != (
            #[trigger] configuration.tags[k]).0,
    ensures
        0 <= i < configuration.tags.len() && configuration.tags[i].0 == tag
            ==> configuration.tag_map().contains_key(tag) && configuration.tag_map()[tag]
            == configuration.tags[i].1,
        (forall|j: int|
            0 <= j < configuration.tags.len() ==> (#[trigger] configuration.tags[j]).0 != tag)
            ==> !configuration.tag_map().contains_key(tag),
{
    crate::named_map::law_map_of_listing(configuration.tags, tag, i);
}

} // verus!
