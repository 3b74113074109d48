//! The push gateway's request envelope.

use vstd::prelude::*;

verus! {

/// The body POSTed to the push gateway.
pub struct FcmRequest {
    pub message: FcmMessage,
}

/// One push message: the device token, what to show, and a data map
/// that always carries the trace id.
pub struct FcmMessage {
    pub token: String,
    pub notification: FcmNotification,
    pub data: Option<Vec<(String, String)>>,
}

/// The visible part of a push message.
pub struct FcmNotification {
    pub title: String,
    pub body: String,
}

/// What the push gateway answers.
pub struct FcmResponse {
    pub name: Option<String>,
}

/// The entries of a data map other than its `trace_id`.
pub open spec fn without_trace_id(d: Seq<(String, String)>) -> Seq<(String, String)>
    decreases d.len(),
{
    if d.len() == 0 {
        Seq::empty()
    } else if d[0].0@ == "trace_id"@ {
        without_trace_id(d.skip(1))
    } else {
        seq![d[0]] + without_trace_id(d.skip(1))
    }
}

/// Builds the gateway envelope: the given data entries, their own
/// `trace_id` discarded, with the message's trace id appended, so the
/// outgoing payload's data map always carries it.
pub fn build_fcm_request(
    token: String,
    title: String,
    body: String,
    trace_id: String,
    data: Option<Vec<(String, String)>>,
) -> (r: FcmRequest)
    ensures
        r.message.token@ == token@,
        r.message.notification.title@ == title@,
        r.message.notification.body@ == body@,
        r.message.data.is_some(),
        ({
            let entries = r.message.data->Some_0@;
            &&& entries.len() >= 1
            &&& entries.last().0@ == "trace_id"@
            &&& entries.last().1@ == trace_id@
            &&& entries.take(entries.len() - 1) == without_trace_id(
                match data {
                    Option::Some(d) => d@,
                    Option::None => Seq::<(String, String)>::empty(),
                },
            )
        }),
{
    proof {
        reveal_strlit("trace_id");
    }
    let mut entries: Vec<(String, String)> = Vec::new();
    match data {
        Option::None => {},
        Option::Some(d) => {
            let ghost dv = d@;
            let mut i: usize = 0;
            proof {
                assert(dv.skip(0) =~= dv);
                assert(Seq::<(String, String)>::empty() + without_trace_id(dv)
                    =~= without_trace_id(dv));
            }
            while i < d.len()
                invariant
                    dv == d@,
                    i <= dv.len(),
                    entries@ + without_trace_id(dv.skip(i as int)) == without_trace_id(dv),
                decreases dv.len() - i,
            {
                let ghost tail = dv.skip(i as int);
                proof {
                    assert(tail[0] == dv[i as int]);
                    assert(tail.skip(1) =~= dv.skip(i + 1));
                }
                if !crate::text::str_eq(d[i].0.as_str(), "trace_id") {
                    let pair = (d[i].0.clone(), d[i].1.clone());
                    proof {
                        assert(pair == dv[i as int]);
                        assert(seq![tail[0]] + without_trace_id(tail.skip(1)) == without_trace_id(
                            tail,
                        ));
                    }
                    entries.push(pair);
                    proof {
                        assert(entries@ + without_trace_id(dv.skip(i + 1)) =~= without_trace_id(
                            dv,
                        ));
                    }
                } else {
                    proof {
                        assert(without_trace_id(tail) == without_trace_id(tail.skip(1)));
                    }
                }
                i += 1;
            }
            proof {
                assert(dv.skip(i as int) =~= Seq::<(String, String)>::empty());
                assert(entries@ + Seq::<(String, String)>::empty() =~= entries@);
            }
        },
    }
    let key = String::from_str("trace_id");
    entries.push((key, trace_id));
    proof {
        assert(entries@.take(entries@.len() - 1) =~= entries@.drop_last());
    }
    FcmRequest {
        message: FcmMessage {
            token,
            notification: FcmNotification { title, body },
            data: Some(entries),
        },
    }
}

} // verus!
