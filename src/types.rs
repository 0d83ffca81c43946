use vstd::prelude::*;

verus! {

/// An analog axis position in `[0, 1]`, held exactly as the ratio `num / den`.
///
/// `0` is the lowest position, `1` the highest and `1/2` the center.
#[derive(Clone, Copy, Debug, PartialEq, Eq)]
pub struct Axis {
    pub(crate) num: u32,
    pub(crate) den: u32,
}

impl Axis {
    #[verifier::type_invariant]
    pub(crate) open spec fn inv(self) -> bool {
        0 < self.den && self.num <= self.den
    }

    /// Numerator of the position.
    pub closed spec fn numer(self) -> nat {
        self.num as nat
    }

    /// Denominator of the position (never zero).
    pub closed spec fn denom(self) -> nat {
        self.den as nat
    }

    /// The position equals `n / d`.
    pub open spec fn is_ratio(self, n: int, d: int) -> bool {
        self.numer() * d == n * self.denom()
    }

    /// The position lies in `[0, 1]`.
    pub open spec fn in_unit_range(self) -> bool {
        0 < self.denom() && self.numer() <= self.denom()
    }

    /// The center position, `1/2`.
    pub closed spec fn center_spec() -> Axis {
        Axis { num: 1, den: 2 }
    }

    pub(crate) proof fn lemma_inv(self)
        requires
            self.inv(),
        ensures
            self.in_unit_range(),
    {
    }

    pub proof fn lemma_center()
        ensures
            Self::center_spec().numer() == 1,
            Self::center_spec().denom() == 2,
    {
    }

    /// The position `num / den`.
    pub fn from_ratio(num: u32, den: u32) -> (r: Axis)
        requires
            0 < den,
            num <= den,
        ensures
            r.numer() == num,
            r.denom() == den,
    {
        Axis { num, den }
    }

    /// The center position.
    pub fn center() -> (r: Axis)
        ensures
            r == Self::center_spec(),
            r.numer() == 1,
            r.denom() == 2,
    {
        Axis { num: 1, den: 2 }
    }

    /// The position as `(numerator, denominator)`.
    pub fn get(self) -> (r: (u32, u32))
        ensures
            r.0 == self.numer(),
            r.1 == self.denom(),
            0 < r.1,
            r.0 <= r.1,
    {
        proof {
            use_type_invariant(&self);
        }
        (self.num, self.den)
    }

    /// Moves the axis to `num / den`.
    pub fn set_value(&mut self, num: u32, den: u32)
        requires
            0 < den,
            num <= den,
        ensures
            final(self).numer() == num,
            final(self).denom() == den,
    {
        *self = Axis { num, den };
    }
}

/// Names one of the six axes of a record.
#[derive(Clone, Copy, Debug, PartialEq, Eq, Structural)]
pub enum AxisType {
    LeftStickX,
    LeftStickY,
    RightStickX,
    RightStickY,
    LeftTrigger,
    RightTrigger,
}

/// A digital button: pressed or released.
#[derive(Clone, Copy, Debug, PartialEq, Eq, Structural)]
pub struct Button(pub bool);

impl Button {
    pub open spec fn pressed(self) -> bool {
        self.0
    }

    pub fn get(self) -> (r: bool)
        ensures
            r == self.pressed(),
    {
        self.0
    }

    pub fn set_value(&mut self, value: bool)
        ensures
            final(self).pressed() == value,
    {
        self.0 = value;
    }

    pub fn set(&mut self)
        ensures
            final(self).pressed(),
    {
        self.set_value(true);
    }

    pub fn reset(&mut self)
        ensures
            !final(self).pressed(),
    {
        self.set_value(false);
    }
}

impl Default for Button {
    fn default() -> (r: Button)
        ensures
            !r.pressed(),
    {
        Button(false)
    }
}

/// Names one of the fourteen buttons of a record.
#[derive(Clone, Copy, Debug, PartialEq, Eq, Structural)]
pub enum ButtonType {
    Start,
    Select,
    Home,
    North,
    East,
    South,
    West,
    L1,
    L2,
    L3,
    R1,
    R2,
    R3,
    Trackpad,
}

/// The eight directions of a hat switch, and its resting position.
#[derive(Clone, Copy, Debug, PartialEq, Eq, Structural)]
pub enum Hat {
    Neutral,
    North,
    NorthEast,
    East,
    SouthEast,
    South,
    SouthWest,
    West,
    NorthWest,
}

impl Default for Hat {
    fn default() -> (r: Hat)
        ensures
            r == Hat::Neutral,
    {
        Hat::Neutral
    }
}

/// Names the hats of a record.
#[derive(Clone, Copy, Debug, PartialEq, Eq, Structural)]
pub enum HatType {
    DPad,
}

/// One snapshot of a gamepad: six axes, one hat and fourteen buttons.
#[derive(Clone, Copy, Debug, PartialEq, Eq)]
pub struct DeviceInputs {
    pub axis_left_stick_x: Axis,
    pub axis_left_stick_y: Axis,
    pub axis_right_stick_x: Axis,
    pub axis_right_stick_y: Axis,
    pub axis_left_trigger: Axis,
    pub axis_right_trigger: Axis,
    pub hat_dpad: Hat,
    /// Start/Options
    pub button_start: Button,
    /// Back/Share
    pub button_select: Button,
    /// Xbox/PS
    pub button_home: Button,
    /// Y/triangle
    pub button_north: Button,
    /// B/circle
    pub button_east: Button,
    /// A/cross
    pub button_south: Button,
    /// X/square
    pub button_west: Button,
    pub button_l1: Button,
    pub button_l2: Button,
    pub button_l3: Button,
    pub button_r1: Button,
    pub button_r2: Button,
    pub button_r3: Button,
    pub button_trackpad: Button,
}

/// The record with every axis centered, every button released and the hat neutral.
pub open spec fn neutral_inputs() -> DeviceInputs {
    DeviceInputs {
        axis_left_stick_x: Axis::center_spec(),
        axis_left_stick_y: Axis::center_spec(),
        axis_right_stick_x: Axis::center_spec(),
        axis_right_stick_y: Axis::center_spec(),
        axis_left_trigger: Axis::center_spec(),
        axis_right_trigger: Axis::center_spec(),
        hat_dpad: Hat::Neutral,
        button_start: Button(false),
        button_select: Button(false),
        button_home: Button(false),
        button_north: Button(false),
        button_east: Button(false),
        button_south: Button(false),
        button_west: Button(false),
        button_l1: Button(false),
        button_l2: Button(false),
        button_l3: Button(false),
        button_r1: Button(false),
        button_r2: Button(false),
        button_r3: Button(false),
        button_trackpad: Button(false),
    }
}

impl Default for DeviceInputs {
    fn default() -> (r: DeviceInputs)
        ensures
            r == neutral_inputs(),
    {
        DeviceInputs {
            axis_left_stick_x: Axis::center(),
            axis_left_stick_y: Axis::center(),
            axis_right_stick_x: Axis::center(),
            axis_right_stick_y: Axis::center(),
            axis_left_trigger: Axis::center(),
            axis_right_trigger: Axis::center(),
            hat_dpad: Hat::default(),
            button_start: Button::default(),
            button_select: Button::default(),
            button_home: Button::default(),
            button_north: Button::default(),
            button_east: Button::default(),
            button_south: Button::default(),
            button_west: Button::default(),
            button_l1: Button::default(),
            button_l2: Button::default(),
            button_l3: Button::default(),
            button_r1: Button::default(),
            button_r2: Button::default(),
            button_r3: Button::default(),
            button_trackpad: Button::default(),
        }
    }
}

impl DeviceInputs {
    /// The axis named `t`.
    pub open spec fn axis(self, t: AxisType) -> Axis {
        match t {
            AxisType::LeftStickX => self.axis_left_stick_x,
            AxisType::LeftStickY => self.axis_left_stick_y,
            AxisType::RightStickX => self.axis_right_stick_x,
            AxisType::RightStickY => self.axis_right_stick_y,
            AxisType::LeftTrigger => self.axis_left_trigger,
            AxisType::RightTrigger => self.axis_right_trigger,
        }
    }

    /// The button named `t`.
    pub open spec fn button(self, t: ButtonType) -> Button {
        match t {
            ButtonType::Start => self.button_start,
            ButtonType::Select => self.button_select,
            ButtonType::Home => self.button_home,
            ButtonType::North => self.button_north,
            ButtonType::East => self.button_east,
            ButtonType::South => self.button_south,
            ButtonType::West => self.button_west,
            ButtonType::L1 => self.button_l1,
            ButtonType::L2 => self.button_l2,
            ButtonType::L3 => self.button_l3,
            ButtonType::R1 => self.button_r1,
            ButtonType::R2 => self.button_r2,
            ButtonType::R3 => self.button_r3,
            ButtonType::Trackpad => self.button_trackpad,
        }
    }

    /// Every axis of the record lies in `[0, 1]`.
    pub open spec fn axes_in_range(self) -> bool {
        forall|t: AxisType| #[trigger] self.axis(t).in_unit_range()
    }

    /// Brings into the proof context that the axes of a run-time record lie
    /// in `[0, 1]`; it computes nothing.
    pub(crate) fn note_axes_in_range(&self)
        ensures
            self.axes_in_range(),
    {
        proof {
            use_type_invariant(&self.axis_left_stick_x);
            use_type_invariant(&self.axis_left_stick_y);
            use_type_invariant(&self.axis_right_stick_x);
            use_type_invariant(&self.axis_right_stick_y);
            use_type_invariant(&self.axis_left_trigger);
            use_type_invariant(&self.axis_right_trigger);
            self.axis_left_stick_x.lemma_inv();
            self.axis_left_stick_y.lemma_inv();
            self.axis_right_stick_x.lemma_inv();
            self.axis_right_stick_y.lemma_inv();
            self.axis_left_trigger.lemma_inv();
            self.axis_right_trigger.lemma_inv();
        }
        assert forall|t: AxisType| #[trigger] self.axis(t).in_unit_range() by {
            match t {
                AxisType::LeftStickX => {},
                AxisType::LeftStickY => {},
                AxisType::RightStickX => {},
                AxisType::RightStickY => {},
                AxisType::LeftTrigger => {},
                AxisType::RightTrigger => {},
            }
        }
    }

    /// Releases every button; axes and hat are kept.
    pub fn reset_buttons(&mut self)
        ensures
            forall|t: ButtonType| !(#[trigger] final(self).button(t)).pressed(),
            forall|t: AxisType| #[trigger] final(self).axis(t) == old(self).axis(t),
            final(self).hat_dpad == old(self).hat_dpad,
    {
        self.button_start.reset();
        self.button_select.reset();
        self.button_home.reset();
        self.button_north.reset();
        self.button_east.reset();
        self.button_south.reset();
        self.button_west.reset();
        self.button_l1.reset();
        self.button_l2.reset();
        self.button_l3.reset();
        self.button_r1.reset();
        self.button_r2.reset();
        self.button_r3.reset();
        self.button_trackpad.reset();
    }

    /// Moves the axis named `axis_type` to `value`; everything else is kept.
    #[verifier::rlimit(40)]
    pub fn set_axis(&mut self, axis_type: AxisType, value: Axis)
        ensures
            final(self).axis(axis_type) == value,
            forall|t: AxisType| t != axis_type ==> #[trigger] final(self).axis(t) == old(self).axis(t),
            forall|t: ButtonType| #[trigger] final(self).button(t) == old(self).button(t),
            final(self).hat_dpad == old(self).hat_dpad,
    {
        match axis_type {
            AxisType::LeftStickX => self.axis_left_stick_x = value,
            AxisType::LeftStickY => self.axis_left_stick_y = value,
            AxisType::RightStickX => self.axis_right_stick_x = value,
            AxisType::RightStickY => self.axis_right_stick_y = value,
            AxisType::LeftTrigger => self.axis_left_trigger = value,
            AxisType::RightTrigger => self.axis_right_trigger = value,
        }
    }

    /// Presses or releases the button named `button_type`; everything else is
    /// kept.
    #[verifier::rlimit(100)]
    #[verifier::spinoff_prover]
    pub fn set_button(&mut self, button_type: ButtonType, value: bool)
        ensures
            final(self).button(button_type).pressed() == value,
            forall|t: ButtonType| t != button_type ==> #[trigger] final(self).button(t) == old(self).button(t),
            forall|t: AxisType| #[trigger] final(self).axis(t) == old(self).axis(t),
            final(self).hat_dpad == old(self).hat_dpad,
    {
        match button_type {
            ButtonType::Start => self.button_start = Button(value),
            ButtonType::Select => self.button_select = Button(value),
            ButtonType::Home => self.button_home = Button(value),
            ButtonType::North => self.button_north = Button(value),
            ButtonType::East => self.button_east = Button(value),
            ButtonType::South => self.button_south = Button(value),
            ButtonType::West => self.button_west = Button(value),
            ButtonType::L1 => self.button_l1 = Button(value),
            ButtonType::L2 => self.button_l2 = Button(value),
            ButtonType::L3 => self.button_l3 = Button(value),
            ButtonType::R1 => self.button_r1 = Button(value),
            ButtonType::R2 => self.button_r2 = Button(value),
            ButtonType::R3 => self.button_r3 = Button(value),
            ButtonType::Trackpad => self.button_trackpad = Button(value),
        }
    }

    /// Sets the dpad hat to `value`; everything else is kept.
    pub fn set_hat(&mut self, value: Hat)
        ensures
            final(self).hat_dpad == value,
            forall|t: AxisType| #[trigger] final(self).axis(t) == old(self).axis(t),
            forall|t: ButtonType| #[trigger] final(self).button(t) == old(self).button(t),
    {
        self.hat_dpad = value;
    }

    pub fn get_axis(&self, axis_type: AxisType) -> (r: Axis)
        ensures
            r == self.axis(axis_type),
    {
        match axis_type {
            AxisType::LeftStickX => self.axis_left_stick_x,
            AxisType::LeftStickY => self.axis_left_stick_y,
            AxisType::RightStickX => self.axis_right_stick_x,
            AxisType::RightStickY => self.axis_right_stick_y,
            AxisType::LeftTrigger => self.axis_left_trigger,
            AxisType::RightTrigger => self.axis_right_trigger,
        }
    }

    pub fn get_button(&self, button_type: ButtonType) -> (r: Button)
        ensures
            r == self.button(button_type),
    {
        match button_type {
            ButtonType::Start => self.button_start,
            ButtonType::Select => self.button_select,
            ButtonType::Home => self.button_home,
            ButtonType::North => self.button_north,
            ButtonType::East => self.button_east,
            ButtonType::South => self.button_south,
            ButtonType::West => self.button_west,
            ButtonType::L1 => self.button_l1,
            ButtonType::L2 => self.button_l2,
            ButtonType::L3 => self.button_l3,
            ButtonType::R1 => self.button_r1,
            ButtonType::R2 => self.button_r2,
            ButtonType::R3 => self.button_r3,
            ButtonType::Trackpad => self.button_trackpad,
        }
    }

    pub fn get_hat(&self, hat_type: HatType) -> (r: Hat)
        ensures
            r == self.hat_dpad,
    {
        match hat_type {
            HatType::DPad => self.hat_dpad,
        }
    }
}


/// A one-label sequence where `b` is pressed, else an empty one.
pub open spec fn label_if(b: Button, label: &'static str) -> Seq<&'static str> {
    if b.pressed() {
        seq![label]
    } else {
        Seq::empty()
    }
}

/// Appends `label` where `b` is pressed.
fn push_if(labels: &mut Vec<&'static str>, b: Button, label: &'static str)
    ensures
        final(labels)@ == old(labels)@ + label_if(b, label),
{
    if b.get() {
        labels.push(label);
    }
    proof {
        assert(labels@ =~= old(labels)@ + label_if(b, label));
    }
}

impl DeviceInputs {
    /// The labels of the pressed buttons: face buttons (triangle, circle,
    /// cross, square), start, select, L1, L2, L3, R1, R2, R3, home, trackpad.
    pub open spec fn pressed_labels(self) -> Seq<&'static str> {
        Seq::empty()
            + label_if(self.button_north, "\u{25b3}")
            + label_if(self.button_east, "\u{25cb}")
            + label_if(self.button_south, "\u{2716}")
            + label_if(self.button_west, "\u{25a1}")
            + label_if(self.button_start, "Start")
            + label_if(self.button_select, "Select")
            + label_if(self.button_l1, "L1")
            + label_if(self.button_l2, "L2")
            + label_if(self.button_l3, "L3")
            + label_if(self.button_r1, "R1")
            + label_if(self.button_r2, "R2")
            + label_if(self.button_r3, "R3")
            + label_if(self.button_home, "Home")
            + label_if(self.button_trackpad, "Trackpad")
    }

    /// The labels of the pressed buttons, in the order of `pressed_labels`.
    pub fn button_labels(&self) -> (r: Vec<&'static str>)
        ensures
            r@ == self.pressed_labels(),
    {
        let mut labels: Vec<&'static str> = Vec::new();
        push_if(&mut labels, self.button_north, "\u{25b3}");
        push_if(&mut labels, self.button_east, "\u{25cb}");
        push_if(&mut labels, self.button_south, "\u{2716}");
        push_if(&mut labels, self.button_west, "\u{25a1}");
        push_if(&mut labels, self.button_start, "Start");
        push_if(&mut labels, self.button_select, "Select");
        push_if(&mut labels, self.button_l1, "L1");
        push_if(&mut labels, self.button_l2, "L2");
        push_if(&mut labels, self.button_l3, "L3");
        push_if(&mut labels, self.button_r1, "R1");
        push_if(&mut labels, self.button_r2, "R2");
        push_if(&mut labels, self.button_r3, "R3");
        push_if(&mut labels, self.button_home, "Home");
        push_if(&mut labels, self.button_trackpad, "Trackpad");
        labels
    }
}

} // verus!
