use vstd::prelude::*;
use crate::ascii::ascii_of;
use crate::client::{decode_error_message, history_url, history_url_chars, ErrorKind};
use crate::currency::{CurrencyCode, CurrencyPair};
use crate::date::{date_lt, iso_chars, spec_back, Date};
use crate::json::{map_get_last, spec_history_response};

verus! {

/// The rate a decoded history body reports for `day` and `target`: the
/// raw number text under the day's ISO key and then the target code,
/// or nothing when either key is missing.
pub open spec fn day_rate(body: Seq<u8>, day: Date, target: Seq<char>) -> Option<Seq<u8>> {
    match spec_history_response(body) {
        None => None,
        Some(m) => match map_get_last(m, ascii_of(iso_chars(day))) {
            None => None,
            Some(inner) => map_get_last(inner, ascii_of(target)),
        },
    }
}

/// The samples a run of decoded bodies yields, day by day: the days and
/// bodies are walked together in order, and each day whose body reports
/// a rate contributes one sample.
pub open spec fn spec_collect(days: Seq<Date>, bodies: Seq<Seq<u8>>, target: Seq<char>) -> Seq<
    (Date, Seq<u8>),
>
    decreases days.len(),
{
    if days.len() == 0 || bodies.len() == 0 {
        Seq::empty()
    } else {
        let rest = spec_collect(days.drop_first(), bodies.drop_first(), target);
        match day_rate(bodies.first(), days.first(), target) {
            Some(v) => seq![(days.first(), v)] + rest,
            None => rest,
        }
    }
}

/// Unfolds `spec_collect` by one day at the end of the run.
pub proof fn lemma_collect_push(
    days: Seq<Date>,
    bodies: Seq<Seq<u8>>,
    d: Date,
    b: Seq<u8>,
    target: Seq<char>,
)
    requires
        days.len() == bodies.len(),
    ensures
        spec_collect(days.push(d), bodies.push(b), target) == spec_collect(days, bodies, target)
            + match day_rate(b, d, target) {
            Some(v) => seq![(d, v)],
            None => Seq::<(Date, Seq<u8>)>::empty(),
        },
    decreases days.len(),
{
    if days.len() == 0 {
        let ds = days.push(d);
        let bs = bodies.push(b);
        assert(ds.first() == d);
        assert(bs.first() == b);
        assert(ds.drop_first() =~= Seq::<Date>::empty());
        assert(bs.drop_first() =~= Seq::<Seq<u8>>::empty());
        assert(spec_collect(ds.drop_first(), bs.drop_first(), target) =~= Seq::<(
            Date,
            Seq<u8>,
        )>::empty());
        match day_rate(b, d, target) {
            Some(v) => {
                assert(spec_collect(ds, bs, target) =~= seq![(d, v)]);
                assert(spec_collect(days, bodies, target) + seq![(d, v)] =~= seq![(d, v)]);
            },
            None => {
                assert(spec_collect(ds, bs, target) =~= Seq::<(Date, Seq<u8>)>::empty());
                assert(spec_collect(days, bodies, target) + Seq::<(Date, Seq<u8>)>::empty() =~= Seq::<(
                    Date,
                    Seq<u8>,
                )>::empty());
            },
        }
    } else {
        lemma_collect_push(days.drop_first(), bodies.drop_first(), d, b, target);
        assert(days.push(d).drop_first() =~= days.drop_first().push(d));
        assert(bodies.push(b).drop_first() =~= bodies.drop_first().push(b));
        assert(days.push(d).first() == days.first());
        assert(bodies.push(b).first() == bodies.first());
        let rest_old = spec_collect(days.drop_first(), bodies.drop_first(), target);
        let tail = match day_rate(b, d, target) {
            Some(v) => seq![(d, v)],
            None => Seq::<(Date, Seq<u8>)>::empty(),
        };
        match day_rate(bodies.first(), days.first(), target) {
            Some(v0) => {
                assert(spec_collect(days.push(d), bodies.push(b), target) == seq![
                    (days.first(), v0),
                ] + (rest_old + tail));
                assert(seq![(days.first(), v0)] + (rest_old + tail) =~= (seq![
                    (days.first(), v0),
                ] + rest_old) + tail);
            },
            None => {
            },
        }
    }
}

/// The dates of collected samples come from the run's days and keep
/// their order: when the days ascend strictly, so do the sample dates.
pub proof fn lemma_collect_sorted(days: Seq<Date>, bodies: Seq<Seq<u8>>, target: Seq<char>)
    requires
        forall|i: int, j: int| 0 <= i < j < days.len() ==> date_lt(days[i], days[j]),
    ensures
        forall|i: int|
            0 <= i < spec_collect(days, bodies, target).len() ==> exists|k: int|
                0 <= k < days.len() && (#[trigger] spec_collect(days, bodies, target)[i]).0
                    == days[k],
        forall|i: int, j: int|
            0 <= i < j < spec_collect(days, bodies, target).len() ==> date_lt(
                spec_collect(days, bodies, target)[i].0,
                spec_collect(days, bodies, target)[j].0,
            ),
    decreases days.len(),
{
    let res = spec_collect(days, bodies, target);
    if days.len() == 0 || bodies.len() == 0 {
    } else {
        let days1 = days.drop_first();
        let bodies1 = bodies.drop_first();
        assert(forall|i: int, j: int|
            0 <= i < j < days1.len() ==> date_lt(days1[i], days1[j])) by {
            assert(forall|i: int| 0 <= i < days1.len() ==> days1[i] == days[i + 1]);
        }
        lemma_collect_sorted(days1, bodies1, target);
        let rest = spec_collect(days1, bodies1, target);
        assert forall|i: int|
            0 <= i < rest.len() implies exists|k: int|
            0 <= k < days.len() && (#[trigger] rest[i]).0 == days[k] by {
            let k1 = choose|k1: int| 0 <= k1 < days1.len() && rest[i].0 == days1[k1];
            assert(days1[k1] == days[k1 + 1]);
            assert(0 <= k1 + 1 < days.len() && rest[i].0 == days[k1 + 1]);
        }
        match day_rate(bodies.first(), days.first(), target) {
            Some(v0) => {
                assert(res == seq![(days.first(), v0)] + rest);
                assert(res[0].0 == days[0]);
                assert forall|i: int| 1 <= i < res.len() implies date_lt(res[0].0, res[i].0)
                    && (exists|k: int|
                    0 <= k < days.len() && (#[trigger] res[i]).0 == days[k]) by {
                    assert(res[i] == rest[i - 1]);
                    let k = choose|k: int| 0 <= k < days.len() && rest[i - 1].0 == days[k];
                    assert(rest[i - 1].0 == days[k]);
                    assert(k >= 1) by {
                        if k == 0 {
                            let k1 = choose|k1: int|
                                0 <= k1 < days1.len() && rest[i - 1].0 == days1[k1];
                            assert(days1[k1] == days[k1 + 1]);
                            assert(date_lt(days[0], days[k1 + 1]));
                        }
                    }
                    assert(date_lt(days[0], days[k]));
                }
                assert forall|i: int, j: int| 1 <= i < j < res.len() implies date_lt(
                    res[i].0,
                    res[j].0,
                ) by {
                    assert(res[i] == rest[i - 1]);
                    assert(res[j] == rest[j - 1]);
                }
            },
            None => {
                assert(res == rest);
            },
        }
    }
}

/// Every collected sample is a day of the run paired with exactly the
/// rate that day's body reports.
pub proof fn lemma_collect_sound(days: Seq<Date>, bodies: Seq<Seq<u8>>, target: Seq<char>)
    requires
        days.len() == bodies.len(),
    ensures
        forall|i: int|
            0 <= i < spec_collect(days, bodies, target).len() ==> exists|k: int|
                0 <= k < days.len() && (#[trigger] spec_collect(days, bodies, target)[i]) == (
                days[k],
                day_rate(bodies[k], days[k], target).unwrap(),
                ),
    decreases days.len(),
{
    let res = spec_collect(days, bodies, target);
    if days.len() == 0 {
    } else {
        let days1 = days.drop_first();
        let bodies1 = bodies.drop_first();
        lemma_collect_sound(days1, bodies1, target);
        let rest = spec_collect(days1, bodies1, target);
        match day_rate(bodies.first(), days.first(), target) {
            Some(v0) => {
                assert(res == seq![(days.first(), v0)] + rest);
                assert forall|i: int| 0 <= i < res.len() implies exists|k: int|
                    0 <= k < days.len() && (#[trigger] res[i]) == (
                    days[k],
                    day_rate(bodies[k], days[k], target).unwrap(),
                    ) by {
                    if i == 0 {
                        assert(res[0] == (days[0], v0));
                        assert(day_rate(bodies[0], days[0], target) == Some(v0));
                    } else {
                        assert(res[i] == rest[i - 1]);
                        let k1 = choose|k1: int|
                            0 <= k1 < days1.len() && rest[i - 1] == (
                            days1[k1],
                            day_rate(bodies1[k1], days1[k1], target).unwrap(),
                            );
                        assert(days1[k1] == days[k1 + 1]);
                        assert(bodies1[k1] == bodies[k1 + 1]);
                        assert(res[i] == (
                            days[k1 + 1],
                            day_rate(bodies[k1 + 1], days[k1 + 1], target).unwrap(),
                        ));
                    }
                }
            },
            None => {
                assert(res == rest);
                assert forall|i: int| 0 <= i < res.len() implies exists|k: int|
                    0 <= k < days.len() && (#[trigger] res[i]) == (
                    days[k],
                    day_rate(bodies[k], days[k], target).unwrap(),
                    ) by {
                    let k1 = choose|k1: int|
                        0 <= k1 < days1.len() && rest[i] == (
                        days1[k1],
                        day_rate(bodies1[k1], days1[k1], target).unwrap(),
                        );
                    assert(days1[k1] == days[k1 + 1]);
                    assert(bodies1[k1] == bodies[k1 + 1]);
                    assert(res[i] == (
                        days[k1 + 1],
                        day_rate(bodies[k1 + 1], days[k1 + 1], target).unwrap(),
                    ));
                }
            },
        }
    }
}

/// Every day of the run whose body reports a rate contributes its
/// sample: no reported day is dropped.
pub proof fn lemma_collect_complete(days: Seq<Date>, bodies: Seq<Seq<u8>>, target: Seq<char>)
    requires
        days.len() == bodies.len(),
    ensures
        forall|k: int|
            0 <= k < days.len() && (#[trigger] day_rate(bodies[k], days[k], target)) is Some
                ==> exists|i: int|
                0 <= i < spec_collect(days, bodies, target).len() && spec_collect(
                    days,
                    bodies,
                    target,
                )[i] == (days[k], day_rate(bodies[k], days[k], target).unwrap()),
    decreases days.len(),
{
    let res = spec_collect(days, bodies, target);
    if days.len() == 0 {
    } else {
        let days1 = days.drop_first();
        let bodies1 = bodies.drop_first();
        lemma_collect_complete(days1, bodies1, target);
        let rest = spec_collect(days1, bodies1, target);
        assert forall|k: int|
            0 <= k < days.len() && (#[trigger] day_rate(bodies[k], days[k], target)) is Some
            implies exists|i: int|
            0 <= i < res.len() && res[i] == (
            days[k],
            day_rate(bodies[k], days[k], target).unwrap(),
            ) by {
            match day_rate(bodies.first(), days.first(), target) {
                Some(v0) => {
                    assert(res == seq![(days.first(), v0)] + rest);
                    if k == 0 {
                        assert(res[0] == (days[0], v0));
                    } else {
                        assert(days1[k - 1] == days[k]);
                        assert(bodies1[k - 1] == bodies[k]);
                        assert(day_rate(bodies1[k - 1], days1[k - 1], target) is Some);
                        let i1 = choose|i1: int|
                            0 <= i1 < rest.len() && rest[i1] == (
                            days1[k - 1],
                            day_rate(bodies1[k - 1], days1[k - 1], target).unwrap(),
                            );
                        assert(res[i1 + 1] == rest[i1]);
                    }
                },
                None => {
                    assert(res == rest);
                    assert(k != 0);
                    assert(days1[k - 1] == days[k]);
                    assert(bodies1[k - 1] == bodies[k]);
                    assert(day_rate(bodies1[k - 1], days1[k - 1], target) is Some);
                    let i1 = choose|i1: int|
                        0 <= i1 < rest.len() && rest[i1] == (
                        days1[k - 1],
                        day_rate(bodies1[k - 1], days1[k - 1], target).unwrap(),
                        );
                    assert(res[i1] == rest[i1]);
                },
            }
        }
    }
}

/// One in-flight history fetch: the 31-day window ending at a given
/// day, walked one request at a time. Every request uses the same URL,
/// which carries the whole range; the per-day date only selects the key
/// that is looked up in the response.
pub struct HistoryFetch {
    /// The code whose rate each sample carries.
    pub target: CurrencyCode,
    /// The window's days, ascending; the last one is the window's end.
    pub days: Vec<Date>,
    /// The one request URL, used for every day of the window.
    pub url: String,
    /// How many days have been answered so far.
    pub idx: usize,
    /// The samples collected so far, in day order.
    pub samples: Vec<(Date, Vec<u8>)>,
    /// The error that aborted the fetch, if one did.
    pub failed: Option<ErrorKind>,
    /// The decoded bodies accepted so far.
    pub bodies: Ghost<Seq<Seq<u8>>>,
}

impl HistoryFetch {
    /// Well-formedness: a 31-day strictly ascending window, and, while
    /// nothing failed, one accepted body per answered day whose
    /// collected samples are exactly `spec_collect` of the walked days.
    pub open spec fn wf(&self) -> bool {
        &&& self.target.wf()
        &&& self.days@.len() == 31
        &&& (forall|i: int| 0 <= i < 31 ==> (#[trigger] self.days@[i]).wf())
        &&& (forall|i: int, j: int| 0 <= i < j < 31 ==> date_lt(self.days@[i], self.days@[j]))
        &&& self.idx <= 31
        &&& (self.failed is None ==> {
            &&& self.bodies@.len() == self.idx
            &&& self.samples.deep_view() == spec_collect(
                self.days@.take(self.idx as int),
                self.bodies@,
                self.target@,
            )
        })
    }

    /// Starts a fetch for the 31 days ending at `today`. The range URL
    /// embeds the window's first and last day; the first supported year
    /// is left out so the whole window exists.
    pub fn new(api_key: &str, pair: &CurrencyPair, today: Date) -> (r: HistoryFetch)
        requires
            pair.wf(),
            today.wf(),
            today.year >= 2,
        ensures
            r.wf(),
            r.idx == 0,
            r.failed is None,
            r.samples@.len() == 0,
            r.target@ == pair.target@,
            r.days@.len() == 31,
            forall|i: int| 0 <= i < 31 ==> r.days@[i] == spec_back(today, (30 - i) as nat),
            r.url@ == history_url_chars(
                api_key@,
                pair.base@,
                pair.target@,
                iso_chars(spec_back(today, 30)),
                iso_chars(today),
            ),
    {
        let mut down: Vec<Date> = Vec::new();
        let mut cur = today;
        let mut i: usize = 0;
        down.push(cur);
        while i < 30
            invariant
                i <= 30,
                down@.len() == i + 1,
                cur.wf(),
                cur == spec_back(today, i as nat),
                cur.year >= 2 || (cur.month == 12 && cur.day as int >= 31 - i),
                forall|k: int| 0 <= k <= i ==> (#[trigger] down@[k]) == spec_back(today, k as nat),
                forall|k: int| 0 <= k <= i ==> (#[trigger] down@[k]).wf(),
                forall|k1: int, k2: int|
                    0 <= k1 < k2 <= i ==> date_lt(down@[k2], down@[k1]),
            decreases 30 - i,
        {
            proof {
                crate::date::lemma_back_unfold(today, (i + 1) as nat);
            }
            let prev = cur.prev();
            proof {
                assert forall|k1: int| 0 <= k1 <= i implies date_lt(prev, down@[k1]) by {
                    assert(date_lt(prev, cur));
                    assert(down@[i as int] == cur);
                    if k1 < i {
                        assert(date_lt(down@[i as int], down@[k1]));
                    }
                }
            }
            down.push(prev);
            cur = prev;
            i += 1;
        }
        let mut days: Vec<Date> = Vec::new();
        let mut j: usize = 0;
        while j < 31
            invariant
                j <= 31,
                down@.len() == 31,
                days@.len() == j,
                forall|k: int| 0 <= k < 31 ==> (#[trigger] down@[k]) == spec_back(today, k as nat),
                forall|k: int| 0 <= k < 31 ==> (#[trigger] down@[k]).wf(),
                forall|k1: int, k2: int| 0 <= k1 < k2 < 31 ==> date_lt(down@[k2], down@[k1]),
                forall|k: int| 0 <= k < j ==> (#[trigger] days@[k]) == down@[30 - k],
            decreases 31 - j,
        {
            days.push(down[30 - j]);
            j += 1;
        }
        let start = days[0];
        let end = days[30];
        assert(start == spec_back(today, 30));
        assert(end == spec_back(today, 0));
        assert(end == today);
        let start_iso = start.iso();
        let end_iso = end.iso();
        let url = history_url(api_key, pair, start_iso.as_str(), end_iso.as_str());
        let r = HistoryFetch {
            target: pair.target.clone(),
            days,
            url,
            idx: 0,
            samples: Vec::new(),
            failed: None,
            bodies: Ghost(Seq::empty()),
        };
        proof {
            assert(r.target@ == pair.target@);
            assert(r.samples.deep_view() =~= Seq::<(Date, Seq<u8>)>::empty());
            assert(r.days@.take(0) =~= Seq::<Date>::empty());
            assert(forall|i2: int, j2: int|
                0 <= i2 < j2 < 31 ==> date_lt(r.days@[i2], r.days@[j2]));
        }
        r
    }

    /// True while another day of the window still waits for an answer.
    pub fn in_progress(&self) -> (r: bool)
        ensures
            r == (self.idx < 31 && self.failed is None),
    {
        self.idx < 31 && self.failed.is_none()
    }

    /// Feeds the answer for the next day of the window. A transport
    /// error or a refused body aborts the whole fetch; an accepted body
    /// contributes the day's sample exactly when it reports a rate for
    /// the day and the target code.
    pub fn step(&mut self, response: Result<Vec<u8>, String>)
        requires
            old(self).wf(),
            old(self).idx < 31,
            old(self).failed is None,
        ensures
            final(self).wf(),
            final(self).target == old(self).target,
            final(self).days == old(self).days,
            final(self).url == old(self).url,
            match response {
                Err(msg) => {
                    &&& final(self).failed matches Some(ErrorKind::NetworkOrDecode(m)) && m@
                        == msg@
                    &&& final(self).idx == old(self).idx
                    &&& final(self).samples == old(self).samples
                },
                Ok(body) => match spec_history_response(body@) {
                    None => {
                        &&& final(self).failed matches Some(ErrorKind::NetworkOrDecode(m)) && m@
                            == decode_error_message()
                        &&& final(self).idx == old(self).idx
                        &&& final(self).samples == old(self).samples
                    },
                    Some(_) => {
                        &&& final(self).failed is None
                        &&& final(self).idx == old(self).idx + 1
                        &&& final(self).bodies@ == old(self).bodies@.push(body@)
                        &&& final(self).samples.deep_view() == old(self).samples.deep_view()
                            + match day_rate(
                            body@,
                            old(self).days@[old(self).idx as int],
                            old(self).target@,
                        ) {
                            Some(v) => seq![(old(self).days@[old(self).idx as int], v)],
                            None => Seq::<(Date, Seq<u8>)>::empty(),
                        }
                    },
                },
            },
    {
        match response {
            Err(msg) => {
                self.failed = Some(ErrorKind::NetworkOrDecode(msg));
            },
            Ok(body) => {
                match crate::json::parse_history_response(body.as_slice()) {
                    None => {
                        self.failed = Some(ErrorKind::NetworkOrDecode(
                            crate::client::decode_error_text(),
                        ));
                    },
                    Some(m) => {
                        let ghost old_samples = self.samples.deep_view();
                        let day = self.days[self.idx];
                        let iso = day.iso_bytes();
                        match crate::json::find_last(&m, iso.as_slice()) {
                            Some(di) => {
                                proof {
                                    assert(m.deep_view()[di as int] == m@[di as int].deep_view());
                                }
                                let inner: &Vec<(Vec<u8>, Vec<u8>)> = &m[di].1;
                                proof {
                                    assert(inner.deep_view() == m.deep_view()[di as int].1);
                                }
                                let kb = self.target.key_bytes();
                                match crate::json::find_last(inner, kb.as_slice()) {
                                    Some(vi) => {
                                        let v = vstd::slice::slice_to_vec(
                                            inner[vi].1.as_slice(),
                                        );
                                        proof {
                                            assert(inner.deep_view()[vi as int] == inner@[
                                                vi as int].deep_view());
                                            assert(v@ =~= inner.deep_view()[vi as int].1);
                                        }
                                        let ghost keyd = day;
                                        self.samples.push((day, v));
                                        proof {
                                            assert(self.samples.deep_view() =~~= old_samples.push(
                                                (keyd, v@)));
                                            assert(day_rate(body@, day, self.target@) == Some(v@));
                                            assert(old_samples.push((keyd, v@)) =~= old_samples
                                                + seq![(keyd, v@)]);
                                        }
                                    },
                                    None => {
                                        proof {
                                            assert(day_rate(body@, day, self.target@) is None);
                                        }
                                    },
                                }
                            },
                            None => {
                                proof {
                                    assert(day_rate(body@, day, self.target@) is None);
                                }
                            },
                        }
                        proof {
                            lemma_collect_push(
                                self.days@.take(self.idx as int),
                                self.bodies@,
                                day,
                                body@,
                                self.target@,
                            );
                            assert(self.days@.take(self.idx as int + 1) =~= self.days@.take(
                                self.idx as int,
                            ).push(day));
                        }
                        self.idx = self.idx + 1;
                        self.bodies = Ghost(self.bodies@.push(body@));
                    },
                }
            },
        }
    }

    /// Ends the fetch once every day is answered or a day has failed:
    /// the collected samples of the whole window, or the error that
    /// aborted it, with every earlier sample discarded.
    pub fn finish(self) -> (r: Result<Vec<(Date, Vec<u8>)>, ErrorKind>)
        requires
            self.wf(),
            self.failed is None ==> self.idx == 31,
        ensures
            match self.failed {
                Some(e) => r matches Err(e2) && e2 == e,
                None => r matches Ok(v) && v.deep_view() == spec_collect(
                    self.days@,
                    self.bodies@,
                    self.target@,
                ),
            },
    {
        match self.failed {
            Some(e) => Err(e),
            None => {
                proof {
                    assert(self.days@.take(31) =~= self.days@);
                }
                Ok(self.samples)
            },
        }
    }
}

} // verus!
