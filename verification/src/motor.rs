//! Motors: the controllable features of a device, and the tags that name them.
use crate::sorting::Ordered;
use crate::text::{is_before, same_text};
use vstd::prelude::*;

verus! {

/// The kinds of motor that a command can drive.
#[derive(Clone, Copy, Debug, PartialEq, Eq, Structural)]
pub enum MotorType {
    Linear,
    Rotation,
    Vibration,
    Contraction,
}

/// The kinds of message that decide what a device can do.
#[derive(Clone, Copy, Debug, PartialEq, Eq, Structural)]
pub enum MessageType {
    LinearCmd,
    RotateCmd,
    VibrateCmd,
    RawWriteCmd,
    BatteryLevelCmd,
    RSSILevelCmd,
}

impl MessageType {
    /// The name under which a device lists the message.
    pub open spec fn spec_name(self) -> &'static str {
        match self {
            MessageType::LinearCmd => "LinearCmd",
            MessageType::RotateCmd => "RotateCmd",
            MessageType::VibrateCmd => "VibrateCmd",
            MessageType::RawWriteCmd => "RawWriteCmd",
            MessageType::BatteryLevelCmd => "BatteryLevelCmd",
            MessageType::RSSILevelCmd => "RSSILevelCmd",
        }
    }

    /// The name under which a device lists the message.
    pub fn name(self) -> (name: &'static str)
        ensures
            name@ == self.spec_name()@,
    {
        match self {
            MessageType::LinearCmd => "LinearCmd",
            MessageType::RotateCmd => "RotateCmd",
            MessageType::VibrateCmd => "VibrateCmd",
            MessageType::RawWriteCmd => "RawWriteCmd",
            MessageType::BatteryLevelCmd => "BatteryLevelCmd",
            MessageType::RSSILevelCmd => "RSSILevelCmd",
        }
    }
}

impl MotorType {
    /// All kinds of motor, in order.
    pub open spec fn spec_all() -> Seq<MotorType> {
        seq![MotorType::Linear, MotorType::Rotation, MotorType::Vibration, MotorType::Contraction]
    }

    /// All kinds of motor, in order.
    pub fn all() -> (all: Vec<MotorType>)
        ensures
            all@ == MotorType::spec_all(),
    {
        let all = vec![
            MotorType::Linear,
            MotorType::Rotation,
            MotorType::Vibration,
            MotorType::Contraction,
        ];
        assert(all@ =~= MotorType::spec_all());
        all
    }

    /// The place of the kind in the order of kinds.
    pub open spec fn spec_rank(self) -> int {
        match self {
            MotorType::Linear => 0,
            MotorType::Rotation => 1,
            MotorType::Vibration => 2,
            MotorType::Contraction => 3,
        }
    }

    /// The place of the kind in the order of kinds.
    pub fn rank(self) -> (rank: u8)
        ensures
            rank == self.spec_rank(),
    {
        match self {
            MotorType::Linear => 0,
            MotorType::Rotation => 1,
            MotorType::Vibration => 2,
            MotorType::Contraction => 3,
        }
    }

    /// The message that drives motors of this kind. Contraction has none of its
    /// own: it is driven by a raw write.
    pub open spec fn spec_get_type(self) -> Option<MessageType> {
        match self {
            MotorType::Linear => Some(MessageType::LinearCmd),
            MotorType::Rotation => Some(MessageType::RotateCmd),
            MotorType::Vibration => Some(MessageType::VibrateCmd),
            MotorType::Contraction => None,
        }
    }

    /// The message that drives motors of this kind, if it has one of its own.
    pub fn get_type(self) -> (message: Option<MessageType>)
        ensures
            message == self.spec_get_type(),
    {
        match self {
            MotorType::Linear => Some(MessageType::LinearCmd),
            MotorType::Rotation => Some(MessageType::RotateCmd),
            MotorType::Vibration => Some(MessageType::VibrateCmd),
            MotorType::Contraction => None,
        }
    }
}

/// One motor of one device.
#[derive(Debug, PartialEq)]
pub struct Motor {
    pub device_name: String,
    pub feature_index: u32,
    pub feature_type: MotorType,
}

/// What a motor is: the device, the place on it and the kind.
pub struct MotorView {
    pub device_name: Seq<char>,
    pub feature_index: u32,
    pub feature_type: MotorType,
}

impl View for Motor {
    type V = MotorView;

    open spec fn view(&self) -> MotorView {
        MotorView {
            device_name: self.device_name@,
            feature_index: self.feature_index,
            feature_type: self.feature_type,
        }
    }
}

impl Clone for Motor {
    fn clone(&self) -> (copy: Self)
        ensures
            copy@ == self@,
    {
        Motor {
            device_name: self.device_name.clone(),
            feature_index: self.feature_index,
            feature_type: self.feature_type,
        }
    }
}

/// Motors are ordered by device, then by place on the device, then by kind.
pub open spec fn motor_before(a: MotorView, b: MotorView) -> bool {
    if a.device_name != b.device_name {
        crate::text::text_before(a.device_name, b.device_name)
    } else if a.feature_index != b.feature_index {
        a.feature_index < b.feature_index
    } else {
        a.feature_type.spec_rank() < b.feature_type.spec_rank()
    }
}

/// Of two motors exactly one stands before the other, unless they are equal.
pub proof fn lemma_motor_order_total(a: MotorView, b: MotorView)
    ensures
        a == b || motor_before(a, b) || motor_before(b, a),
        !(motor_before(a, b) && motor_before(b, a)),
        a == b ==> !motor_before(a, b),
{
    crate::text::lemma_text_order_total(a.device_name, b.device_name);
}

/// The order of motors is transitive.
pub proof fn lemma_motor_order_transitive(a: MotorView, b: MotorView, c: MotorView)
    requires
        motor_before(a, b),
        motor_before(b, c),
    ensures
        motor_before(a, c),
{
    crate::text::lemma_text_order_total(a.device_name, b.device_name);
    if crate::text::text_before(a.device_name, b.device_name) && crate::text::text_before(
        b.device_name,
        c.device_name,
    ) {
        crate::text::lemma_text_order_transitive(a.device_name, b.device_name, c.device_name);
        crate::text::lemma_text_order_total(a.device_name, c.device_name);
    }
}

impl Motor {
    /// Whether this is the same motor as `other`.
    pub fn same_motor(&self, other: &Motor) -> (result: bool)
        ensures
            result == (self@ == other@),
    {
        same_text(self.device_name.as_str(), other.device_name.as_str()) && self.feature_index
            == other.feature_index && self.feature_type == other.feature_type
    }

    /// Whether this motor stands before `other`.
    pub fn stands_before(&self, other: &Motor) -> (result: bool)
        ensures
            result == motor_before(self@, other@),
    {
        if !same_text(self.device_name.as_str(), other.device_name.as_str()) {
            is_before(self.device_name.as_str(), other.device_name.as_str())
        } else if self.feature_index != other.feature_index {
            self.feature_index < other.feature_index
        } else {
            self.feature_type.rank() < other.feature_type.rank()
        }
    }
}

/// A motor with the tag that names it, or without a tag.
#[derive(Debug, PartialEq)]
pub struct TaggedMotor {
    pub motor: Motor,
    pub tag: Option<String>,
}

/// What a tagged motor is.
pub struct TaggedMotorView {
    pub motor: MotorView,
    pub tag: Option<Seq<char>>,
}

impl View for TaggedMotor {
    type V = TaggedMotorView;

    open spec fn view(&self) -> TaggedMotorView {
        TaggedMotorView {
            motor: self.motor@,
            tag: match self.tag {
                Some(tag) => Some(tag@),
                None => None,
            },
        }
    }
}

impl Clone for TaggedMotor {
    fn clone(&self) -> (copy: Self)
        ensures
            copy@ == self@,
    {
        TaggedMotor {
            motor: self.motor.clone(),
            tag: match &self.tag {
                Some(tag) => Some(tag.clone()),
                None => None,
            },
        }
    }
}

impl TaggedMotor {
    /// A motor with its tag.
    pub fn new(motor: Motor, tag: Option<String>) -> (tagged: TaggedMotor)
        ensures
            tagged.motor == motor,
            tagged.tag == tag,
    {
        TaggedMotor { motor, tag }
    }
}

/// Whether one optional tag stands before another: no tag stands first.
pub open spec fn tag_before(a: Option<Seq<char>>, b: Option<Seq<char>>) -> bool {
    match (a, b) {
        (None, Some(_)) => true,
        (Some(x), Some(y)) => crate::text::text_before(x, y),
        (_, None) => false,
    }
}

/// Tagged motors are ordered by motor, then by tag.
pub open spec fn tagged_before(a: TaggedMotorView, b: TaggedMotorView) -> bool {
    if a.motor != b.motor {
        motor_before(a.motor, b.motor)
    } else {
        tag_before(a.tag, b.tag)
    }
}

/// Of two tagged motors exactly one stands before the other, unless they are
/// equal.
pub proof fn lemma_tagged_order_total(a: TaggedMotorView, b: TaggedMotorView)
    ensures
        a == b || tagged_before(a, b) || tagged_before(b, a),
        !(tagged_before(a, b) && tagged_before(b, a)),
        a == b ==> !tagged_before(a, b),
{
    lemma_motor_order_total(a.motor, b.motor);
    if let (Some(x), Some(y)) = (a.tag, b.tag) {
        crate::text::lemma_text_order_total(x, y);
    }
}

/// The order of tagged motors is transitive.
pub proof fn lemma_tagged_order_transitive(
    a: TaggedMotorView,
    b: TaggedMotorView,
    c: TaggedMotorView,
)
    requires
        tagged_before(a, b),
        tagged_before(b, c),
    ensures
        tagged_before(a, c),
{
    lemma_motor_order_total(a.motor, b.motor);
    if a.motor != b.motor && b.motor != c.motor {
        lemma_motor_order_transitive(a.motor, b.motor, c.motor);
        lemma_motor_order_total(a.motor, c.motor);
    }
    if let (Some(x), Some(y)) = (a.tag, b.tag) {
        if let Some(z) = c.tag {
            if crate::text::text_before(x, y) && crate::text::text_before(y, z) {
                crate::text::lemma_text_order_transitive(x, y, z);
            }
        }
    }
}

impl Ordered for TaggedMotor {
    open spec fn not_after(a: TaggedMotorView, b: TaggedMotorView) -> bool {
        !tagged_before(b, a)
    }

    proof fn lemma_total(a: TaggedMotorView, b: TaggedMotorView) {
        lemma_tagged_order_total(a, b);
    }

    proof fn lemma_transitive(a: TaggedMotorView, b: TaggedMotorView, c: TaggedMotorView) {
        lemma_tagged_order_total(a, b);
        lemma_tagged_order_total(b, c);
        if tagged_before(c, a) {
            if tagged_before(a, b) {
                lemma_tagged_order_transitive(c, a, b);
            }
        }
    }

    fn is_not_after(&self, other: &Self) -> (result: bool) {
        let before = if !other.motor.same_motor(&self.motor) {
            other.motor.stands_before(&self.motor)
        } else {
            match (&other.tag, &self.tag) {
                (None, Some(_)) => true,
                (Some(x), Some(y)) => is_before(x.as_str(), y.as_str()),
                (_, None) => false,
            }
        };
        !before
    }
}

/// The list of kinds holds each kind once, and each stands at its place.
pub proof fn law_all_kinds(kind: MotorType)
    ensures
        MotorType::spec_all().len() == 4,
        0 <= kind.spec_rank() < 4,
        forall|i: int|
            0 <= i < 4 ==> (#[trigger] MotorType::spec_all()[i] == kind <==> i == kind.spec_rank()),
{
}

/// The order of motors: first by the names of the devices, on one device by the
/// places, at one place by the kinds.
pub proof fn law_order_of_motors(a: MotorView, b: MotorView)
    ensures
        crate::text::text_before(a.device_name, b.device_name) ==> motor_before(a, b),
        a.device_name == b.device_name && a.feature_index < b.feature_index ==> motor_before(a, b),
        a.device_name == b.device_name && a.feature_index == b.feature_index ==> (motor_before(
            a,
            b,
        ) <==> a.feature_type.spec_rank() < b.feature_type.spec_rank()),
        motor_before(a, b) ==> a != b && !motor_before(b, a),
{
    crate::text::lemma_text_order_total(a.device_name, b.device_name);
}

/// The order of tagged motors: that of the motors, and for one motor first without a
/// tag and then by the tags.
pub proof fn law_order_of_tagged_motors(a: TaggedMotorView, b: TaggedMotorView)
    ensures
        motor_before(a.motor, b.motor) ==> tagged_before(a, b),
        a.motor == b.motor && a.tag is None && b.tag is Some ==> tagged_before(a, b),
        a.motor == b.motor && a.tag is Some && b.tag is Some ==> (tagged_before(a, b)
            <==> crate::text::text_before(a.tag->0, b.tag->0)),
        tagged_before(a, b) ==> a != b && !tagged_before(b, a),
        TaggedMotor::not_after(a, b) <==> !tagged_before(b, a),
{
    lemma_motor_order_total(a.motor, b.motor);
    lemma_tagged_order_total(a, b);
}

/// The view of a tagged motor says all of it.
pub proof fn law_view_of_tagged_motor(tagged: TaggedMotor)
    ensures
        tagged@.motor.device_name == tagged.motor.device_name@,
        tagged@.motor.feature_index == tagged.motor.feature_index,
        tagged@.motor.feature_type == tagged.motor.feature_type,
        tagged.tag is None <==> tagged@.tag is None,
        tagged.tag matches Some(tag) ==> tagged@.tag == Some(tag@),
{
}

} // verus!
