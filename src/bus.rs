use vstd::prelude::*;

use crate::model::OutboundMessage;

verus! {

#[verifier::external_type_specification]
#[verifier::external_body]
pub struct ExQoS(rumqttc::QoS);

/// Relies on `rumqttc::qos`: the levels 0, 1 and 2 are qualities of service,
/// and every other level is refused.
#[verifier::external_body]
fn qos_of_level(level: u8) -> (r: Option<rumqttc::QoS>)
    ensures
        r is Some <==> level <= 2,
{
    rumqttc::qos(level).ok()
}

/// The bus's quality of service for a message; `None` when its level is not
/// one that the bus knows, and the message cannot be published.
pub fn message_qos(m: &OutboundMessage) -> (r: Option<rumqttc::QoS>)
    ensures
        r is Some <==> 0 <= m.qos <= 2,
{
    if 0 <= m.qos && m.qos <= 2 {
        qos_of_level(m.qos as u8)
    } else {
        None
    }
}

} // verus!
