//! The request processor.
//!
//! The processor watches the bus and, for each event its predecessor stage
//! produced, renders the configured endpoint template against data extracted
//! from the event.  Sending the request and reading the response are done at
//! the edge of the program; which endpoint is requested, and for which
//! events, is verified here.

use vstd::prelude::*;
use crate::bus::{Bus, Receiver, Recv};
use crate::config::Inputs;
use crate::event::{Event, EventView, spec_acted, spec_acts_on};
use crate::render::{rendered_of, spec_data_map, spec_template_plain, view_rendered};

verus! {

/// Errors raised while building the processor.
#[derive(Debug)]
pub enum Error {
    /// A required attribute was not provided to the builder.
    MissingRequiredAttribute(String),
}

/// Configuration of the request processor.
pub struct ProcessorConfig {
    /// The endpoint template to render for each event.
    pub endpoint: Vec<u8>,
    /// An optional payload template.
    pub payload: Option<Vec<(Vec<u8>, Vec<u8>)>>,
    /// Optional request headers.
    pub headers: Option<Vec<(Vec<u8>, Vec<u8>)>>,
    /// An optional bearer-token file path.
    pub credentials: Option<Vec<u8>>,
    /// Where each template value comes from in the event.
    pub inputs: Option<Vec<(Vec<u8>, Inputs)>>,
}

/// A probe target.
pub struct Test {
    url: String,
}

/// The request processor, bound to its stage id.
pub struct Processor {
    config: ProcessorConfig,
    current_task_id: usize,
}

impl Processor {
    /// The configured stage id.
    pub closed spec fn spec_current_task_id(&self) -> usize {
        self.current_task_id
    }

    /// The configured endpoint template.
    pub closed spec fn spec_endpoint(&self) -> Seq<u8> {
        self.config.endpoint@
    }

    /// The configured inputs.
    pub closed spec fn spec_inputs(&self) -> Seq<(Vec<u8>, Inputs)> {
        match self.config.inputs {
            Some(ref v) => v@,
            None => Seq::empty(),
        }
    }

    /// Work through one bus event.  An event stamped by any stage but this
    /// processor's immediate predecessor has no effect.  For an event that
    /// is acted on, the endpoint template is rendered against the data the
    /// configured inputs extract from the event; a failed render drops the
    /// event.
    pub fn process_step(&self, e: &Event) -> (r: Option<Vec<u8>>)
        requires
            e.data.wf(),
        ensures
            !spec_acts_on(self.spec_current_task_id() as nat, e@.current_task_id) ==> r is None,
            spec_acts_on(self.spec_current_task_id() as nat, e@.current_task_id)
                ==> view_rendered(r) == spec_endpoint_of(
                self.spec_endpoint(),
                self.spec_inputs(),
                e@,
            ),
    {
        if !crate::event::acts_on(self.current_task_id, &e.current_task_id) {
            return None;
        }
        let data = match &self.config.inputs {
            Some(inputs) => crate::config::input_data(inputs, &e.data, &e.extensions),
            None => {
                let empty_inputs: Vec<(Vec<u8>, Inputs)> = Vec::new();
                proof {
                    assert(self.spec_inputs() =~= empty_inputs@);
                }
                crate::config::input_data(&empty_inputs, &e.data, &e.extensions)
            },
        };
        crate::render::render_template(&self.config.endpoint, &data)
    }
}

/// What the processor asks for on one acted-on event: the endpoint
/// template, if plain, rendered against the data extracted from the
/// event.  A template that is not plain is rejected before the engine
/// sees it.
pub open spec fn spec_endpoint_of(
    endpoint: Seq<u8>,
    inputs: Seq<(Vec<u8>, Inputs)>,
    e: EventView,
) -> Option<Seq<u8>> {
    if spec_template_plain(endpoint) {
        rendered_of(
            endpoint,
            spec_data_map(crate::config::spec_data_pairs(inputs, e.data, e.extensions)),
        )
    } else {
        None
    }
}

/// The endpoints a sequence of acted-on events requests: one per event
/// whose endpoint template renders.
pub open spec fn spec_endpoints(
    endpoint: Seq<u8>,
    inputs: Seq<(Vec<u8>, Inputs)>,
    acted: Seq<EventView>,
) -> Seq<Seq<u8>>
    decreases acted.len(),
{
    if acted.len() == 0 {
        Seq::empty()
    } else {
        let rest = spec_endpoints(endpoint, inputs, acted.drop_first());
        match spec_endpoint_of(endpoint, inputs, acted[0]) {
            Some(p) => seq![p] + rest,
            None => rest,
        }
    }
}

/// One more acted-on event extends the requested endpoints by one exactly
/// when its template renders.
pub proof fn lemma_endpoints_snoc(
    endpoint: Seq<u8>,
    inputs: Seq<(Vec<u8>, Inputs)>,
    acted: Seq<EventView>,
    e: EventView,
)
    ensures
        spec_endpoints(endpoint, inputs, acted.push(e)) == spec_endpoints(endpoint, inputs, acted)
            + (match spec_endpoint_of(endpoint, inputs, e) {
            Some(p) => seq![p],
            None => Seq::<Seq<u8>>::empty(),
        }),
    decreases acted.len(),
{
    let tail = (match spec_endpoint_of(endpoint, inputs, e) {
        Some(p) => seq![p],
        None => Seq::<Seq<u8>>::empty(),
    });
    if acted.len() == 0 {
        assert(acted.push(e)[0] == e);
        assert(acted.push(e).drop_first() =~= Seq::<EventView>::empty());
        assert(spec_endpoints(endpoint, inputs, Seq::empty()) == Seq::<Seq<u8>>::empty());
        assert(spec_endpoints(endpoint, inputs, acted.push(e)) =~= spec_endpoints(
            endpoint,
            inputs,
            acted,
        ) + tail);
    } else {
        assert(acted.push(e).drop_first() =~= acted.drop_first().push(e));
        lemma_endpoints_snoc(endpoint, inputs, acted.drop_first(), e);
        assert(acted.push(e)[0] == acted[0]);
        assert(spec_endpoints(endpoint, inputs, acted.push(e)) =~= spec_endpoints(
            endpoint,
            inputs,
            acted,
        ) + tail);
    }
}

/// What one run of the request processor produced.
pub struct ProcessReport {
    /// The rendered endpoints, in arrival order of the events acted on
    /// whose template rendered.
    pub endpoints: Vec<Vec<u8>>,
    /// How many messages this subscriber lost to the bus's bounded window.
    pub lagged: u64,
    /// Whether every acted-on event rendered; a failed render drops the
    /// event and clears this.
    pub clean: bool,
}

impl Processor {
    /// Drain the bus: every event stamped by this stage's immediate
    /// predecessor has the endpoint template rendered against the data the
    /// configured inputs extract from it.  A failed render drops the event;
    /// everything else on the bus is skipped.  The requests themselves are
    /// sent at the edge of the program.
    pub fn process(self, bus: &Bus<Event>, rc: Receiver) -> (r: Result<ProcessReport, Error>)
        requires
            bus.wf(),
            bus.spec_closed(),
            rc.spec_cursor() == 0,
            forall|i: int|
                0 <= i < bus.spec_history().len() ==> (#[trigger] bus.spec_history()[i]).data.wf(),
        ensures
            r matches Ok(rep) ==> {
                let acted = spec_acted(
                    bus.spec_history().skip(bus.spec_first() as int),
                    self.spec_current_task_id() as nat,
                );
                let eps = spec_endpoints(self.spec_endpoint(), self.spec_inputs(), acted);
                &&& rep.lagged == bus.spec_first()
                &&& rep.endpoints@.map_values(|p: Vec<u8>| p@) == eps
                &&& rep.clean == (eps.len() == acted.len())
            },
            r is Ok,
    {
        let task = self.current_task_id;
        let mut rc = rc;
        let mut endpoints: Vec<Vec<u8>> = Vec::new();
        let mut lagged: u64 = 0;
        let mut clean = true;
        let mut done = false;
        let ghost hist = bus.spec_history();
        let ghost first = bus.spec_first();
        let ghost tmpl = self.config.endpoint@;
        let ghost inputs_v = self.spec_inputs();
        proof {
            assert(spec_acted(Seq::<EventView>::empty(), task as nat) =~= Seq::<
                EventView,
            >::empty());
            assert(endpoints@.map_values(|p: Vec<u8>| p@) =~= Seq::<Seq<u8>>::empty());
        }
        while !done
            invariant
                bus.wf(),
                bus.spec_closed(),
                hist == bus.spec_history(),
                first == bus.spec_first(),
                tmpl == self.spec_endpoint(),
                inputs_v == self.spec_inputs(),
                task == self.spec_current_task_id(),
                forall|i: int| 0 <= i < hist.len() ==> (#[trigger] hist[i]).data.wf(),
                rc.spec_cursor() <= bus.spec_next(),
                rc.spec_cursor() >= first || rc.spec_cursor() == 0,
                rc.spec_cursor() == 0 ==> lagged == 0,
                rc.spec_cursor() > 0 ==> lagged == first,
                done ==> rc.spec_cursor() == bus.spec_next() && (rc.spec_cursor() > 0 || first
                    == 0),
                ({
                    let seen = if rc.spec_cursor() <= first {
                        Seq::<EventView>::empty()
                    } else {
                        hist.subrange(first as int, rc.spec_cursor() as int)
                    };
                    let acted = spec_acted(seen, task as nat);
                    let eps = spec_endpoints(tmpl, inputs_v, acted);
                    &&& eps.len() <= acted.len()
                    &&& endpoints@.map_values(|p: Vec<u8>| p@) == eps
                    &&& clean == (eps.len() == acted.len())
                }),
            decreases (bus.spec_next() - rc.spec_cursor()) * 2 + (if done {
                0int
            } else {
                1int
            }),
        {
            let ghost cursor0 = rc.spec_cursor();
            match bus.recv(&mut rc) {
                Recv::Lagged(n) => {
                    proof {
                        assert(cursor0 == 0);
                        assert(n == first);
                        assert(spec_acted(Seq::<EventView>::empty(), task as nat) =~= Seq::<
                            EventView,
                        >::empty());
                        assert(spec_endpoints(tmpl, inputs_v, Seq::<EventView>::empty())
                            == Seq::<Seq<u8>>::empty());
                    }
                    lagged = n;
                },
                Recv::Message(e) => {
                    let ghost seen0 = if cursor0 <= first {
                        Seq::<EventView>::empty()
                    } else {
                        hist.subrange(first as int, cursor0 as int)
                    };
                    proof {
                        assert(e@ == hist[cursor0 as int]);
                        assert(e@.data.wf());
                        assert(hist.subrange(first as int, cursor0 as int + 1) =~= seen0.push(
                            e@,
                        ));
                        crate::event::lemma_acted_snoc(seen0, e@, task as nat);
                        lemma_endpoints_snoc(tmpl, inputs_v, spec_acted(seen0, task as nat), e@);
                        assert(spec_acted(seen0, task as nat) + seq![e@] =~= spec_acted(
                            seen0,
                            task as nat,
                        ).push(e@));
                    }
                    match self.process_step(&e) {
                        Some(endpoint) => {
                            let ghost pv = endpoint@;
                            let ghost old_eps = endpoints@;
                            endpoints.push(endpoint);
                            proof {
                                assert(spec_acts_on(task as nat, e@.current_task_id));
                                assert(spec_endpoint_of(tmpl, inputs_v, e@) == Some(pv));
                                let acted0 = spec_acted(seen0, task as nat);
                                let eps1 = spec_endpoints(tmpl, inputs_v, acted0.push(e@));
                                assert(eps1 =~= spec_endpoints(tmpl, inputs_v, acted0) + seq![pv]);
                                assert(endpoints@.map_values(|p: Vec<u8>| p@) =~= old_eps.map_values(
                                    |p: Vec<u8>| p@,
                                ) + seq![pv]);
                            }
                        },
                        None => {
                            if crate::event::acts_on(task, &e.current_task_id) {
                                clean = false;
                                proof {
                                    assert(spec_acts_on(task as nat, e@.current_task_id));
                                    assert(spec_endpoint_of(tmpl, inputs_v, e@) is None);
                                    let acted0 = spec_acted(seen0, task as nat);
                                    assert(spec_endpoints(tmpl, inputs_v, acted0.push(e@))
                                        =~= spec_endpoints(tmpl, inputs_v, acted0));
                                    assert(spec_acted(seen0.push(e@), task as nat).len() == acted0.len()
                                        + 1);
                                }
                            } else {
                                proof {
                                    assert(spec_acted(seen0.push(e@), task as nat) =~= spec_acted(
                                        seen0,
                                        task as nat,
                                    ));
                                }
                            }
                        },
                    }
                },
                Recv::Empty => {
                    proof {
                        assert(false);
                    }
                    done = true;
                },
                Recv::Closed => {
                    done = true;
                },
            }
        }
        proof {
            let seen = if rc.spec_cursor() <= first {
                Seq::<EventView>::empty()
            } else {
                hist.subrange(first as int, rc.spec_cursor() as int)
            };
            if rc.spec_cursor() <= first {
                assert(bus.spec_next() == first);
                assert(hist.skip(first as int) =~= Seq::<EventView>::empty());
                assert(seen =~= hist.skip(first as int));
            } else {
                assert(seen =~= hist.skip(first as int));
            }
            assert(lagged == first);
        }
        Ok(ProcessReport { endpoints, lagged, clean })
    }
}

/// Builder for the request processor.
pub struct Builder {
    config: ProcessorConfig,
    current_task_id: usize,
}

impl Builder {
    /// The configured endpoint template.
    pub closed spec fn spec_endpoint(&self) -> Seq<u8> {
        self.config.endpoint@
    }

    /// The stage id set so far.
    pub closed spec fn spec_current_task_id(&self) -> usize {
        self.current_task_id
    }

    /// Creates a new builder for a processor at the given stage.
    pub fn new(config: ProcessorConfig, current_task_id: usize) -> (r: Builder)
        ensures
            r.spec_endpoint() == config.endpoint@,
            r.spec_current_task_id() == current_task_id,
    {
        Builder { config, current_task_id }
    }

    /// Builds the processor.
    pub fn build(self) -> (r: Result<Processor, Error>)
        ensures
            r matches Ok(p) && p.spec_endpoint() == self.spec_endpoint()
                && p.spec_current_task_id() == self.spec_current_task_id(),
    {
        Ok(Processor { config: self.config, current_task_id: self.current_task_id })
    }
}

} // verus!
