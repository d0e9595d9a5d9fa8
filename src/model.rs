use vstd::prelude::*;
use vstd::string::*;

verus! {

/// One measurement object of a decoded telegram: the field it reports, its
/// value written as decimal text, and its unit.
pub struct Measurement {
    pub field: String,
    pub value: String,
    pub unit: String,
}

pub struct MeasurementView {
    pub field: Seq<char>,
    pub value: Seq<char>,
    pub unit: Seq<char>,
}

impl View for Measurement {
    type V = MeasurementView;

    open spec fn view(&self) -> MeasurementView {
        MeasurementView { field: self.field@, value: self.value@, unit: self.unit@ }
    }
}

/// One message for the bus.
pub struct OutboundMessage {
    pub topic: String,
    pub payload: String,
    pub qos: i32,
    pub retain: bool,
}

pub struct MessageView {
    pub topic: Seq<char>,
    pub payload: Seq<char>,
    pub qos: i32,
    pub retain: bool,
}

impl View for OutboundMessage {
    type V = MessageView;

    open spec fn view(&self) -> MessageView {
        MessageView { topic: self.topic@, payload: self.payload@, qos: self.qos, retain: self.retain }
    }
}

/// The views of a decoded telegram's objects; `None` stands for an object
/// that could not be decoded.
pub open spec fn objects_view(objects: Seq<Option<Measurement>>) -> Seq<Option<MeasurementView>> {
    objects.map_values(|o: Option<Measurement>| match o {
        Some(m) => Some(m@),
        None => None,
    })
}

pub open spec fn messages_view(messages: Seq<OutboundMessage>) -> Seq<MessageView> {
    messages.map_values(|m: OutboundMessage| m@)
}

/// The topic of a field: the prefix, a slash, and the field's identifier.
pub open spec fn topic_of(prefix: Seq<char>, field: Seq<char>) -> Seq<char> {
    prefix + seq!['/'] + field
}

/// The message that carries one measurement.
pub open spec fn message_of(prefix: Seq<char>, qos: i32, m: MeasurementView) -> MessageView {
    MessageView { topic: topic_of(prefix, m.field), payload: m.value, qos, retain: false }
}

/// The measurements that were decoded, in the order of the telegram.
pub open spec fn recognized(objects: Seq<Option<MeasurementView>>) -> Seq<MeasurementView>
    decreases objects.len(),
{
    if objects.len() == 0 {
        seq![]
    } else {
        let rest = recognized(objects.drop_last());
        match objects.last() {
            Some(m) => rest.push(m),
            None => rest,
        }
    }
}

/// The messages of a telegram: one for each decoded measurement, in order.
pub open spec fn telegram_messages(
    prefix: Seq<char>,
    qos: i32,
    objects: Seq<Option<MeasurementView>>,
) -> Seq<MessageView> {
    recognized(objects).map_values(|m: MeasurementView| message_of(prefix, qos, m))
}

/// How many of the objects were decoded.
pub open spec fn decoded_count(objects: Seq<Option<MeasurementView>>) -> nat
    decreases objects.len(),
{
    if objects.len() == 0 {
        0
    } else {
        decoded_count(objects.drop_last()) + if objects.last() is Some {
            1nat
        } else {
            0nat
        }
    }
}

/// Builds the topic of a field.
pub fn topic_for(prefix: &str, field: &str) -> (r: String)
    ensures
        r@ == topic_of(prefix@, field@),
{
    let mut t = prefix.to_owned();
    t.append("/");
    t.append(field);
    proof {
        reveal_strlit("/");
    }
    t
}

/// Builds the message that carries one measurement.
pub fn message_for(prefix: &str, qos: i32, m: &Measurement) -> (r: OutboundMessage)
    ensures
        r@ == message_of(prefix@, qos, m@),
{
    OutboundMessage {
        topic: topic_for(prefix, m.field.as_str()),
        payload: m.value.as_str().to_owned(),
        qos,
        retain: false,
    }
}

/// Turns the objects of a decoded telegram into the messages to publish,
/// skipping the objects that could not be decoded.
pub fn to_messages(prefix: &str, qos: i32, objects: &Vec<Option<Measurement>>) -> (r: Vec<
    OutboundMessage,
>)
    ensures
        messages_view(r@) == telegram_messages(prefix@, qos, objects_view(objects@)),
{
    let mut out: Vec<OutboundMessage> = Vec::new();
    let mut i: usize = 0;
    while i < objects.len()
        invariant
            i <= objects@.len(),
            messages_view(out@) == telegram_messages(
                prefix@,
                qos,
                objects_view(objects@.subrange(0, i as int)),
            ),
        decreases objects@.len() - i,
    {
        let ghost before = objects@.subrange(0, i as int);
        let ghost after = objects@.subrange(0, i + 1);
        proof {
            assert(after.drop_last() =~= before);
            assert(objects_view(after).drop_last() =~= objects_view(before));
        }
        match &objects[i] {
            Some(m) => {
                let msg = message_for(prefix, qos, m);
                let ghost prev = out@;
                out.push(msg);
                proof {
                    assert(messages_view(out@) =~= messages_view(prev).push(msg@));
                    assert(objects_view(after).last() == Some(m@));
                    assert(recognized(objects_view(after)) == recognized(objects_view(before)).push(m@));
                    assert(telegram_messages(prefix@, qos, objects_view(after)) =~= telegram_messages(
                        prefix@,
                        qos,
                        objects_view(before),
                    ).push(msg@));
                    assert(messages_view(out@) =~= telegram_messages(
                        prefix@,
                        qos,
                        objects_view(after),
                    ));
                }
            },
            None => {
                proof {
                    assert(objects_view(after).last() is None);
                    assert(recognized(objects_view(after)) == recognized(objects_view(before)));
                    assert(messages_view(out@) =~= telegram_messages(
                        prefix@,
                        qos,
                        objects_view(after),
                    ));
                }
            },
        }
        i = i + 1;
    }
    proof {
        assert(objects@.subrange(0, objects@.len() as int) =~= objects@);
    }
    out
}

/// A telegram yields one message for each object that was decoded: objects
/// that could not be decoded are dropped and do not stop the others.
pub proof fn lemma_one_message_per_decoded_object(
    prefix: Seq<char>,
    qos: i32,
    objects: Seq<Option<MeasurementView>>,
)
    ensures
        telegram_messages(prefix, qos, objects).len() == decoded_count(objects),
    decreases objects.len(),
{
    if objects.len() > 0 {
        lemma_one_message_per_decoded_object(prefix, qos, objects.drop_last());
    }
}

} // verus!
