use vstd::prelude::*;
use vstd::string::StringExecFns;
use crate::currency::CurrencyCode;
use crate::date::Date;

verus! {

/// The application's state: the form's current values, the last
/// fetched point rate, and the two accumulated series.
pub struct App {
    /// The API key the form holds.
    pub api_key: String,
    /// The selected base currency.
    pub base: CurrencyCode,
    /// The selected target currency.
    pub target: CurrencyCode,
    /// The last fetched point rate, as raw number text.
    pub rate: Option<Vec<u8>>,
    /// The trend series: one rate value per index.
    pub trend: Vec<Vec<u8>>,
    /// The historical samples: dates paired with their rates.
    pub historical: Vec<(Date, Vec<u8>)>,
}

/// The state after one result message is applied: a carried value
/// overwrites the displayed rate, an absence leaves everything as it
/// was.
pub open spec fn spec_apply(state: App, msg: Option<Vec<u8>>) -> App {
    match msg {
        Some(v) => App { rate: Some(v), ..state },
        None => state,
    }
}

/// One per-frame drain of the result queue: at most the first message
/// is consumed and applied; the rest stay queued.
pub open spec fn spec_drain(state: App, queue: Seq<Option<Vec<u8>>>) -> (App, Seq<
    Option<Vec<u8>>,
>) {
    if queue.len() == 0 {
        (state, queue)
    } else {
        (spec_apply(state, queue.first()), queue.drop_first())
    }
}

impl App {
    /// The fresh state: dollars into euros, an empty key, nothing
    /// fetched yet and both series empty.
    pub fn new() -> (r: App)
        ensures
            r.api_key@ == Seq::<char>::empty(),
            r.base@ == "USD"@,
            r.target@ == "EUR"@,
            r.base.wf(),
            r.target.wf(),
            r.rate is None,
            r.trend@.len() == 0,
            r.historical@.len() == 0,
    {
        proof {
            reveal_strlit("USD");
            reveal_strlit("EUR");
            reveal_strlit("");
            assert(crate::currency::valid_code_chars("USD"@));
            assert(crate::currency::valid_code_chars("EUR"@));
        }
        let base = CurrencyCode::new("USD").unwrap();
        let target = CurrencyCode::new("EUR").unwrap();
        App {
            api_key: "".to_owned(),
            base,
            target,
            rate: None,
            trend: Vec::new(),
            historical: Vec::new(),
        }
    }

    /// Applies one drained result message.
    pub fn apply_message(&mut self, msg: Option<Vec<u8>>)
        ensures
            *final (self) == spec_apply(*old(self), msg),
    {
        match msg {
            Some(v) => {
                self.rate = Some(v);
            },
            None => {
            },
        }
    }

    /// One per-frame drain step over the queued result messages.
    pub fn drain(&mut self, queue: &mut Vec<Option<Vec<u8>>>)
        ensures
            (*final (self), final (queue)@) == spec_drain(*old(self), old(queue)@),
    {
        if queue.len() > 0 {
            let msg = queue.remove(0);
            proof {
                assert(queue@ =~= old(queue)@.drop_first());
            }
            self.apply_message(msg);
        }
    }
}

/// Two queued results are consumed one per drain: the first drain
/// applies exactly the first message and leaves the second queued; the
/// second drain applies the second and leaves the queue empty. No
/// single drain consumes both.
pub proof fn lemma_drain_one_per_frame(state: App, queue: Seq<Option<Vec<u8>>>)
    requires
        queue.len() == 2,
    ensures
        ({
            let (s1, q1) = spec_drain(state, queue);
            let (s2, q2) = spec_drain(s1, q1);
            &&& s1 == spec_apply(state, queue[0])
            &&& q1.len() == 1 && q1[0] == queue[1]
            &&& s2 == spec_apply(spec_apply(state, queue[0]), queue[1])
            &&& q2.len() == 0
        }),
{
}

/// A fetch that produces no value never clears the displayed rate:
/// after a carried value and then an absence, the value still shows.
pub proof fn lemma_failure_preserves_rate(state: App, v: Vec<u8>)
    ensures
        spec_apply(spec_apply(state, Some(v)), None).rate == Some(v),
{
}

} // verus!
