//! The description of a device on the LAN, as devices announce themselves.
use vstd::prelude::*;
use vstd::string::*;

verus! {

/// A device on the LAN and what it can do.
#[derive(Debug)]
pub struct Device {
    name: String,
    computing_power: u32,
    device_type: DeviceType,
    /// one device has multiple ability
    ability: Ability,
    /// 0 to 100
    battery: u8,
    /// ip address
    ip: String,
}

impl Device {
    /// A battery level is a percentage: 0 to 100.
    #[verifier::type_invariant]
    spec fn battery_in_range(self) -> bool {
        self.battery <= 100
    }

    /// The device's name.
    pub closed spec fn name_view(&self) -> Seq<char> {
        self.name@
    }

    /// The device's computing power.
    pub closed spec fn computing_power_view(&self) -> u32 {
        self.computing_power
    }

    /// The device's type.
    pub closed spec fn device_type_view(&self) -> DeviceType {
        self.device_type
    }

    /// The components the device has.
    pub closed spec fn components_view(&self) -> Seq<Component> {
        self.ability.component@
    }

    /// The device's battery level.
    pub closed spec fn battery_view(&self) -> u8 {
        self.battery
    }

    /// The device's IP address.
    pub closed spec fn ip_view(&self) -> Seq<char> {
        self.ip@
    }

    /// A device with a full battery.
    pub fn new(name: String, computing_power: u32, device_type: DeviceType, ability: Ability, ip: String) -> (d: Self)
        ensures
            d.name_view() == name@,
            d.computing_power_view() == computing_power,
            d.device_type_view() == device_type,
            d.components_view() == ability.components_view(),
            d.battery_view() == 100,
            d.ip_view() == ip@,
    {
        Device { name, computing_power, device_type, ability, ip, battery: 100 }
    }

    /// A device with every field given, as it is read back from its description.
    /// The battery level must be a percentage.
    pub fn from_parts(
        name: String,
        computing_power: u32,
        device_type: DeviceType,
        ability: Ability,
        battery: u8,
        ip: String,
    ) -> (d: Self)
        requires
            battery <= 100,
        ensures
            d.name_view() == name@,
            d.computing_power_view() == computing_power,
            d.device_type_view() == device_type,
            d.components_view() == ability.components_view(),
            d.battery_view() == battery,
            d.ip_view() == ip@,
    {
        Device { name, computing_power, device_type, ability, battery, ip }
    }

    /// Fills the battery.
    fn charge(&mut self)
        ensures
            final(self).battery_view() == 100,
            final(self).name_view() == old(self).name_view(),
            final(self).computing_power_view() == old(self).computing_power_view(),
            final(self).device_type_view() == old(self).device_type_view(),
            final(self).components_view() == old(self).components_view(),
            final(self).ip_view() == old(self).ip_view(),
    {
        self.battery = 100;
    }

    pub fn name(&self) -> (r: &str)
        ensures
            r@ == self.name_view(),
    {
        self.name.as_str()
    }

    pub fn computing_power(&self) -> (r: u32)
        ensures
            r == self.computing_power_view(),
    {
        self.computing_power
    }

    pub fn device_type(&self) -> (r: &DeviceType)
        ensures
            *r == self.device_type_view(),
    {
        &self.device_type
    }

    pub fn ability(&self) -> (r: &Ability)
        ensures
            r.components_view() == self.components_view(),
    {
        &self.ability
    }

    /// The battery level, a percentage.
    pub fn battery(&self) -> (r: u8)
        ensures
            r == self.battery_view(),
            r <= 100,
    {
        proof {
            use_type_invariant(self);
        }
        self.battery
    }

    pub fn ip(&self) -> (r: &str)
        ensures
            r@ == self.ip_view(),
    {
        self.ip.as_str()
    }

    /// Sets the device's IP address, leaving the rest as it was.
    pub fn set_ip(&mut self, ip: String)
        ensures
            final(self).ip_view() == ip@,
            final(self).name_view() == old(self).name_view(),
            final(self).computing_power_view() == old(self).computing_power_view(),
            final(self).device_type_view() == old(self).device_type_view(),
            final(self).components_view() == old(self).components_view(),
            final(self).battery_view() == old(self).battery_view(),
    {
        proof {
            use_type_invariant(&*self);
        }
        self.ip = ip;
    }
}

impl Clone for Device {
    /// A copy with the same fields.
    fn clone(&self) -> (d: Self)
        ensures
            d.name_view() == self.name_view(),
            d.computing_power_view() == self.computing_power_view(),
            d.device_type_view() == self.device_type_view(),
            d.components_view() == self.components_view(),
            d.battery_view() == self.battery_view(),
            d.ip_view() == self.ip_view(),
    {
        proof {
            use_type_invariant(self);
        }
        Device {
            name: self.name.clone(),
            computing_power: self.computing_power,
            device_type: self.device_type,
            ability: Ability { component: self.ability.component.clone() },
            battery: self.battery,
            ip: self.ip.clone(),
        }
    }
}

/// device type
#[derive(Debug, Clone, Copy, PartialEq, Eq, Structural)]
pub enum DeviceType {
    Phone,
    Watch,
    PC,
}

/// The components a device has.
#[derive(Debug, Clone)]
pub struct Ability {
    component: Vec<Component>,
}

impl Ability {
    /// The components, in order.
    pub closed spec fn components_view(&self) -> Seq<Component> {
        self.component@
    }

    pub fn new(component: Vec<Component>) -> (a: Self)
        ensures
            a.components_view() == component@,
    {
        Ability { component }
    }

    /// The components, in order.
    pub fn components(&self) -> (r: &Vec<Component>)
        ensures
            r@ == self.components_view(),
    {
        &self.component
    }
}

/// the thing device can do
#[derive(Debug, Clone, Copy, PartialEq, Eq, Structural)]
pub enum Component {
    Camera,
    Recorder,
    Loudspeaker,
    Screen,
}

/// Battery used by a component per minute of use.
pub open spec fn battery_cost(c: Component) -> u8 {
    match c {
        Component::Recorder => 2,
        Component::Loudspeaker => 3,
        Component::Screen => 4,
        Component::Camera => 5,
    }
}

impl Component {
    /// Battery used per minute of use: recorder 2, loudspeaker 3, screen 4, camera 5.
    pub fn get_battery_cost(self) -> (r: u8)
        ensures
            r == battery_cost(self),
    {
        match self {
            Component::Recorder => 2,
            Component::Loudspeaker => 3,
            Component::Screen => 4,
            Component::Camera => 5,
        }
    }
}

} // verus!
