//! The state of everything at once: motors with their tags, devices, configuration.
use crate::application::ApplicationState;
use crate::configuration::Configuration;
use crate::device::{DeviceList, DeviceReading, DeviceReadingView, DeviceStatus, get_devices};
use crate::motor::{Motor, MotorView, TaggedMotor, TaggedMotorView};
use crate::named_map::NamedMap;
use crate::sorting::{Ordered, sort};
use vstd::prelude::*;

verus! {

/// All there is to know about the motors, the devices and the configuration.
#[derive(Debug)]
pub struct ApplicationStatus {
    pub motors: Vec<TaggedMotor>,
    pub devices: Vec<DeviceStatus>,
    pub configuration: Configuration,
}

impl Clone for ApplicationStatus {
    fn clone(&self) -> (copy: Self)
        ensures
            crate::sorting::views_of(copy.motors@) == crate::sorting::views_of(self.motors@),
            crate::sorting::views_of(copy.devices@) == crate::sorting::views_of(self.devices@),
            copy.configuration@ == self.configuration@,
    {
        let motors = self.motors.clone();
        let devices = self.devices.clone();
        assert(crate::sorting::views_of(motors@) =~= crate::sorting::views_of(self.motors@));
        assert(crate::sorting::views_of(devices@) =~= crate::sorting::views_of(self.devices@));
        ApplicationStatus { motors, devices, configuration: self.configuration.clone() }
    }
}

/// The configured motors, each with its tag.
pub open spec fn tagged(tags: Seq<(Seq<char>, MotorView)>) -> Seq<TaggedMotorView> {
    tags.map_values(
        |entry: (Seq<char>, MotorView)| TaggedMotorView { motor: entry.1, tag: Some(entry.0) },
    )
}

/// Whether some tag names a motor.
pub open spec fn has_tag(tags: Seq<(Seq<char>, MotorView)>, motor: MotorView) -> bool {
    exists|i: int| 0 <= i < tags.len() && (#[trigger] tags[i]).1 == motor
}

/// Those of some motors that no tag names, in order.
pub open spec fn untagged(
    tags: Seq<(Seq<char>, MotorView)>,
    motors: Seq<MotorView>,
) -> Seq<TaggedMotorView>
    decreases motors.len(),
{
    if motors.len() == 0 {
        Seq::empty()
    } else if has_tag(tags, motors.last()) {
        untagged(tags, motors.drop_last())
    } else {
        untagged(tags, motors.drop_last()).push(
            TaggedMotorView { motor: motors.last(), tag: None },
        )
    }
}

/// The configured motors, and behind them the connected motors that no tag names.
pub open spec fn listed(
    tags: Seq<(Seq<char>, MotorView)>,
    motors: Seq<MotorView>,
) -> Seq<TaggedMotorView> {
    tagged(tags) + untagged(tags, motors)
}

/// The configured motors, each with its tag.
pub fn motors_to_tagged(tags: &NamedMap<Motor>) -> (motors: Vec<TaggedMotor>)
    ensures
        crate::sorting::views_of(motors@) == tagged(tags.listing()),
{
    let mut motors: Vec<TaggedMotor> = Vec::new();
    let ghost listing = tags.listing();
    let count: usize = tags.len();
    let mut i: usize = 0;
    assert(crate::sorting::views_of(motors@) =~= tagged(listing.take(0)));
    while i < count
        invariant
            i <= count,
            listing == tags.listing(),
            count == listing.len(),
            crate::sorting::views_of(motors@) == tagged(listing.take(i as int)),
        decreases count - i,
    {
        let (tag, motor) = tags.entry(i);
        let ghost shorter = motors@;
        let item = TaggedMotor::new(motor.clone(), Some(tag.to_owned()));
        motors.push(item);
        proof {
            assert(item@ == TaggedMotorView {
                motor: listing[i as int].1,
                tag: Some(listing[i as int].0),
            });
            assert(crate::sorting::views_of(motors@) =~= crate::sorting::views_of(shorter).push(
                item@,
            ));
            assert(tagged(listing.take(i + 1)) =~= tagged(listing.take(i as int)).push(item@));
        }
        i = i + 1;
    }
    assert(listing.take(count as int) =~= listing);
    motors
}

/// Whether some tag names a motor.
fn is_named(tags: &NamedMap<Motor>, motor: &Motor) -> (result: bool)
    ensures
        result == has_tag(tags.listing(), motor@),
{
    let ghost listing = tags.listing();
    let count: usize = tags.len();
    let mut i: usize = 0;
    while i < count
        invariant
            i <= count,
            listing == tags.listing(),
            count == listing.len(),
            forall|j: int| 0 <= j < i ==> (#[trigger] listing[j]).1 != motor@,
        decreases count - i,
    {
        let (_tag, named) = tags.entry(i);
        if named.same_motor(motor) {
            assert(listing[i as int].1 == motor@);
            return true;
        }
        i = i + 1;
    }
    false
}

/// Lists all motors and devices in order: the configured motors with their tags,
/// the connected motors that no tag names, and the state of each device. Without a
/// connection there is nothing to list.
pub fn get_tagged_devices<C>(
    state: &Option<ApplicationState<C>>,
    readings: &Vec<DeviceReading>,
) -> (status: Option<ApplicationStatus>)
    ensures
        match *state {
            None => status is None,
            Some(application) => {
                &&& status matches Some(status)
                &&& shows(
                    status,
                    application.configuration,
                    crate::sorting::views_of(readings@),
                )
                &&& status.configuration@ == application.configuration@
                &&& crate::sorting::in_order::<TaggedMotor>(
                    crate::sorting::views_of(status.motors@),
                )
                &&& crate::sorting::views_of(status.motors@).to_multiset() == listed(
                    application.configuration@.tags,
                    crate::device::all_motors(crate::sorting::views_of(readings@)),
                ).to_multiset()
                &&& crate::sorting::in_order::<DeviceStatus>(
                    crate::sorting::views_of(status.devices@),
                )
                &&& crate::sorting::views_of(status.devices@).to_multiset()
                    == crate::device::statuses(
                    crate::sorting::views_of(readings@),
                ).to_multiset()
            },
        },
{
    match state {
        Some(application) => {
            let DeviceList { motors, devices } = get_devices(readings);
            let configuration = &application.configuration;
            let mut all = motors_to_tagged(&configuration.tags);
            let ghost tags = configuration@.tags;
            let ghost connected = crate::sorting::views_of(motors@);
            let mut i: usize = 0;
            assert(crate::sorting::views_of(all@) =~= listed(tags, connected.take(0)));
            while i < motors.len()
                invariant
                    i <= motors.len(),
                    tags == configuration@.tags,
                    connected == crate::sorting::views_of(motors@),
                    crate::sorting::views_of(all@) == listed(tags, connected.take(i as int)),
                decreases motors.len() - i,
            {
                let motor = &motors[i];
                let ghost shorter = all@;
                proof {
                    assert(connected.take(i + 1).drop_last() =~= connected.take(i as int));
                    assert(connected.take(i + 1).last() == motor@);
                }
                if !is_named(&configuration.tags, motor) {
                    let item = TaggedMotor::new(motor.clone(), None);
                    all.push(item);
                    assert(crate::sorting::views_of(all@) =~= crate::sorting::views_of(
                        shorter,
                    ).push(item@));
                    assert(crate::sorting::views_of(all@) =~= listed(tags, connected.take(i + 1)));
                }
                i = i + 1;
            }
            assert(connected.take(i as int) =~= connected);
            Some(
                ApplicationStatus {
                    motors: sort(all),
                    devices: sort(devices),
                    configuration: configuration.clone(),
                },
            )
        },
        None => None,
    }
}

/// An untagged motor of the list is a connected one that no tag names, and every
/// such motor is in the list.
pub proof fn law_untagged_are_the_unnamed(
    tags: Seq<(Seq<char>, MotorView)>,
    motors: Seq<MotorView>,
    motor: MotorView,
)
    ensures
        listed(tags, motors).contains(TaggedMotorView { motor, tag: None }) <==> (motors.contains(
            motor,
        ) && !has_tag(tags, motor)),
{
    let item = TaggedMotorView { motor, tag: None };
    lemma_untagged(tags, motors, motor);
    let all = listed(tags, motors);
    let split = tagged(tags).len() as int;
    if all.contains(item) {
        let k = all.index_of(item);
        if k < split {
            assert(all[k] == tagged(tags)[k]);
        } else {
            assert(untagged(tags, motors)[k - split] == item);
        }
    }
    if untagged(tags, motors).contains(item) {
        let k = untagged(tags, motors).index_of(item);
        assert(all[split + k] == item);
    }
}

/// What is untagged.
proof fn lemma_untagged(
    tags: Seq<(Seq<char>, MotorView)>,
    motors: Seq<MotorView>,
    motor: MotorView,
)
    ensures
        untagged(tags, motors).contains(TaggedMotorView { motor, tag: None }) <==> (motors.contains(
            motor,
        ) && !has_tag(tags, motor)),
        forall|i: int|
            0 <= i < untagged(tags, motors).len() ==> (#[trigger] untagged(tags, motors)[i]).tag
                is None,
    decreases motors.len(),
{
    if motors.len() > 0 {
        let item = TaggedMotorView { motor, tag: None };
        let before = untagged(tags, motors.drop_last());
        let after = untagged(tags, motors);
        lemma_untagged(tags, motors.drop_last(), motor);
        if motors.drop_last().contains(motor) {
            let k = motors.drop_last().index_of(motor);
            assert(motors[k] == motor);
        }
        if motors.contains(motor) && motors.last() != motor {
            let k = motors.index_of(motor);
            assert(motors.drop_last()[k] == motor);
        }
        if before.contains(item) {
            let k = before.index_of(item);
            assert(after[k] == item);
        }
        if after.contains(item) {
            let k = after.index_of(item);
            if k < before.len() {
                assert(before[k] == item);
            } else {
                assert(motors[motors.len() - 1] == motor);
            }
        }
        if motors.last() == motor && !has_tag(tags, motor) {
            assert(motors[motors.len() - 1] == motor);
            assert(after[before.len() as int] == item);
        }
    }
}

/// A tag is in the list with a motor exactly where the configuration says so.
pub proof fn law_tagged_are_the_configured(
    tags: Seq<(Seq<char>, MotorView)>,
    motors: Seq<MotorView>,
    tag: Seq<char>,
    motor: MotorView,
)
    ensures
        listed(tags, motors).contains(TaggedMotorView { motor, tag: Some(tag) }) <==> tags.contains(
            (tag, motor),
        ),
{
    let item = TaggedMotorView { motor, tag: Some(tag) };
    let all = listed(tags, motors);
    let split = tagged(tags).len() as int;
    lemma_untagged(tags, motors, motor);
    if all.contains(item) {
        let k = all.index_of(item);
        if k < split {
            assert(all[k] == tagged(tags)[k]);
            assert(tags[k] == (tag, motor));
        } else {
            assert(untagged(tags, motors)[k - split] == item);
        }
    }
    if tags.contains((tag, motor)) {
        let k = tags.index_of((tag, motor));
        assert(tagged(tags)[k] == item);
        assert(all[k] == item);
    }
}

/// Every connected motor is in the list, with a tag or without one.
pub proof fn law_every_motor_is_listed(
    tags: Seq<(Seq<char>, MotorView)>,
    motors: Seq<MotorView>,
    motor: MotorView,
)
    requires
        motors.contains(motor),
    ensures
        exists|i: int|
            0 <= i < listed(tags, motors).len() && (#[trigger] listed(tags, motors)[i]).motor
                == motor,
{
    let all = listed(tags, motors);
    if has_tag(tags, motor) {
        let k = choose|k: int| 0 <= k < tags.len() && (#[trigger] tags[k]).1 == motor;
        assert(all[k] == tagged(tags)[k]);
    } else {
        law_untagged_are_the_unnamed(tags, motors, motor);
        let k = all.index_of(TaggedMotorView { motor, tag: None });
        assert(all[k].motor == motor);
    }
}

/// Only one list of motors is in order and holds what has to be listed: whatever
/// order the tags and the devices come in, the same list is shown.
pub proof fn law_motor_list_is_unique(a: Seq<TaggedMotorView>, b: Seq<TaggedMotorView>)
    requires
        crate::sorting::in_order::<TaggedMotor>(a),
        crate::sorting::in_order::<TaggedMotor>(b),
        a.to_multiset() == b.to_multiset(),
    ensures
        a == b,
{
    assert forall|x: TaggedMotorView, y: TaggedMotorView| #[trigger]
        TaggedMotor::not_after(x, y) && #[trigger] TaggedMotor::not_after(y, x) implies x == y by {
        crate::motor::lemma_tagged_order_total(x, y);
    }
    crate::sorting::law_order_is_unique::<TaggedMotor>(a, b);
}

/// What has to be listed. Without connected motors these are the tags, each with its
/// motor. One more connected motor is listed once more, without a tag, if none of the
/// tags is for it, and not at all if one is.
pub proof fn law_what_is_listed(
    tags: Seq<(Seq<char>, MotorView)>,
    motors: Seq<MotorView>,
    motor: MotorView,
    i: int,
)
    ensures
        motors.len() == 0 ==> listed(tags, motors).len() == tags.len(),
        motors.len() == 0 && 0 <= i < tags.len() ==> listed(tags, motors)[i] == (TaggedMotorView {
            motor: tags[i].1,
            tag: Some(tags[i].0),
        }),
        (forall|j: int| 0 <= j < tags.len() ==> (#[trigger] tags[j]).1 != motor) ==> listed(
            tags,
            motors.push(motor),
        ) == listed(tags, motors).push(TaggedMotorView { motor, tag: None }),
        (exists|j: int| 0 <= j < tags.len() && (#[trigger] tags[j]).1 == motor) ==> listed(
            tags,
            motors.push(motor),
        ) == listed(tags, motors),
{
    assert(motors.push(motor).drop_last() =~= motors);
    if !has_tag(tags, motor) {
        assert(listed(tags, motors.push(motor)) =~= listed(tags, motors).push(
            TaggedMotorView { motor, tag: None },
        ));
    }
}

/// A motor is in the list without a tag exactly if it is connected and none of the
/// tags is for it, so no motor is in the list both with a tag and without one.
pub proof fn law_no_motor_is_listed_with_and_without_tag(
    tags: Seq<(Seq<char>, MotorView)>,
    motors: Seq<MotorView>,
    motor: MotorView,
    tag: Seq<char>,
)
    ensures
        listed(tags, motors).contains(TaggedMotorView { motor, tag: None }) <==> (exists|i: int|
            0 <= i < motors.len() && #[trigger] motors[i] == motor) && forall|i: int|
            0 <= i < tags.len() ==> (#[trigger] tags[i]).1 != motor,
        !(listed(tags, motors).contains(TaggedMotorView { motor, tag: None }) && listed(
            tags,
            motors,
        ).contains(TaggedMotorView { motor, tag: Some(tag) })),
{
    law_untagged_are_the_unnamed(tags, motors, motor);
    law_tagged_are_the_configured(tags, motors, tag, motor);
    if motors.contains(motor) {
        assert(motors[motors.index_of(motor)] == motor);
    }
    if tags.contains((tag, motor)) {
        let k = tags.index_of((tag, motor));
        assert(tags[k].1 == motor);
    }
}

/// Whether a status shows a configuration and what the connected devices answered.
pub open spec fn shows(
    status: ApplicationStatus,
    configuration: Configuration,
    readings: Seq<DeviceReadingView>,
) -> bool {
    &&& status.configuration@ == configuration@
    &&& crate::sorting::in_order::<TaggedMotor>(crate::sorting::views_of(status.motors@))
    &&& crate::sorting::views_of(status.motors@).to_multiset() == listed(
        configuration@.tags,
        crate::device::all_motors(readings),
    ).to_multiset()
    &&& crate::sorting::in_order::<DeviceStatus>(crate::sorting::views_of(status.devices@))
    &&& crate::sorting::views_of(status.devices@).to_multiset() == crate::device::statuses(
        readings,
    ).to_multiset()
}

/// What is shown of the motors: every tag with its motor, every connected motor for
/// which there is no tag, and nothing else; and of two motors in the list the first
/// does not belong behind the second.
pub proof fn law_motors_shown(
    status: ApplicationStatus,
    configuration: Configuration,
    readings: Seq<DeviceReadingView>,
    item: TaggedMotorView,
    i: int,
    j: int,
)
    requires
        shows(status, configuration, readings),
    ensures
        ({
            let motors = crate::sorting::views_of(status.motors@);
            let tags = configuration@.tags;
            let connected = crate::device::all_motors(readings);
            &&& status.configuration@.port == configuration@.port
            &&& status.configuration@.tags == tags
            &&& motors.len() == listed(tags, connected).len()
            &&& motors.to_multiset().count(item) == listed(tags, connected).to_multiset().count(item)
            &&& motors.contains(item) <==> match item.tag {
                Some(tag) => exists|k: int|
                    0 <= k < tags.len() && #[trigger] tags[k] == (tag, item.motor),
                None => (exists|k: int|
                    0 <= k < connected.len() && #[trigger] connected[k] == item.motor) && (forall|
                    k: int,
                |
                    0 <= k < tags.len() ==> (#[trigger] tags[k]).1 != item.motor),
            }
            &&& 0 <= i < j < motors.len() ==> {
                let a = motors[i].motor;
                let b = motors[j].motor;
                &&& !crate::text::text_before(b.device_name, a.device_name)
                &&& a.device_name == b.device_name ==> a.feature_index <= b.feature_index
                &&& a.device_name == b.device_name && a.feature_index == b.feature_index
                    ==> a.feature_type.spec_rank() <= b.feature_type.spec_rank()
                &&& a == b && motors[j].tag is None ==> motors[i].tag is None
                &&& a == b ==> (motors[i].tag matches Some(x) ==> motors[j].tag matches Some(y)
                    && !crate::text::text_before(y, x))
            }
        }),
{
    broadcast use vstd::seq_lib::group_to_multiset_ensures;

    let motors = crate::sorting::views_of(status.motors@);
    let tags = configuration@.tags;
    let connected = crate::device::all_motors(readings);
    let all = listed(tags, connected);
    assert(motors.len() == motors.to_multiset().len());
    assert(all.len() == all.to_multiset().len());
    assert(motors.contains(item) <==> motors.to_multiset().count(item) > 0);
    assert(all.contains(item) <==> all.to_multiset().count(item) > 0);
    match item.tag {
        Some(tag) => {
            law_tagged_are_the_configured(tags, connected, tag, item.motor);
            if tags.contains((tag, item.motor)) {
                assert(tags[tags.index_of((tag, item.motor))] == (tag, item.motor));
            }
            assert(item == TaggedMotorView { motor: item.motor, tag: Some(tag) });
        },
        None => {
            law_no_motor_is_listed_with_and_without_tag(
                tags,
                connected,
                item.motor,
                Seq::empty(),
            );
            assert(item == TaggedMotorView { motor: item.motor, tag: None });
        },
    }
    if 0 <= i < j < motors.len() {
        assert(TaggedMotor::not_after(motors[i], motors[j]));
        crate::motor::law_order_of_tagged_motors(motors[j], motors[i]);
        crate::motor::law_order_of_motors(motors[j].motor, motors[i].motor);
    }
}

/// What is shown of the devices: the state of each connected device as often as it
/// comes, and nothing else, by the names in order.
pub proof fn law_devices_shown(
    status: ApplicationStatus,
    configuration: Configuration,
    readings: Seq<DeviceReadingView>,
    i: int,
    j: int,
)
    requires
        shows(status, configuration, readings),
    ensures
        ({
            let devices = crate::sorting::views_of(status.devices@);
            &&& devices.len() == readings.len()
            &&& 0 <= i < readings.len() ==> devices.contains(readings[i].status())
            &&& 0 <= i < devices.len() ==> exists|k: int|
                0 <= k < readings.len() && (#[trigger] readings[k]).status() == devices[i]
            &&& 0 <= i < j < devices.len() ==> !crate::text::text_before(
                devices[j].name,
                devices[i].name,
            )
        }),
{
    broadcast use vstd::seq_lib::group_to_multiset_ensures;

    let devices = crate::sorting::views_of(status.devices@);
    let all = crate::device::statuses(readings);
    assert(devices.len() == devices.to_multiset().len());
    assert(all.len() == all.to_multiset().len());
    if 0 <= i < readings.len() {
        assert(all[i] == readings[i].status());
        assert(all.contains(all[i]));
        assert(all.to_multiset().count(all[i]) > 0);
        assert(devices.contains(all[i]));
    }
    if 0 <= i < devices.len() {
        assert(devices.contains(devices[i]));
        assert(devices.to_multiset().count(devices[i]) > 0);
        assert(all.contains(devices[i]));
        let k = all.index_of(devices[i]);
        assert(readings[k].status() == devices[i]);
    }
    if 0 <= i < j < devices.len() {
        assert(DeviceStatus::not_after(devices[i], devices[j]));
    }
}

} // verus!
