use vstd::prelude::*;

verus! {

/// A message from the host to the device.
#[derive(Clone, Copy, Debug)]
pub struct ServerToDevice {
    pub set_led_status: Option<(u8, bool)>,
    pub send_acc_data: bool,
    pub say_hello: bool,
}

impl Default for ServerToDevice {
    /// A message that asks for nothing.
    fn default() -> (m: ServerToDevice)
        ensures
            m.set_led_status is None,
            !m.send_acc_data,
            !m.say_hello,
    {
        ServerToDevice { set_led_status: None, send_acc_data: false, say_hello: false }
    }
}

/// A message from the device to the host.
#[derive(Clone, Copy, Debug)]
pub struct DeviceToServer {
    pub led_status: Option<(u8, bool)>,
    pub said_hello: bool,
}

impl Default for DeviceToServer {
    /// A message that reports nothing.
    fn default() -> (m: DeviceToServer)
        ensures
            m.led_status is None,
            !m.said_hello,
    {
        DeviceToServer { led_status: None, said_hello: false }
    }
}

/// The device's answer to a message from the host: it says hello back when
/// greeted, and has nothing to answer otherwise.
pub fn reply_to(msg: &ServerToDevice) -> (r: Option<DeviceToServer>)
    ensures
        r is Some <==> msg.say_hello,
        r matches Some(m) ==> m.said_hello && m.led_status is None,
{
    if msg.say_hello {
        Some(DeviceToServer { led_status: None, said_hello: true })
    } else {
        None
    }
}

} // verus!
