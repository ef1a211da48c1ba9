//! The object-store source.
//!
//! The source lists a bucket of the broker's object store, fetches each
//! object, and normalizes its contents for the bus: the bytes are parsed as
//! comma-separated records and carried as one one-row chunk message per
//! record, exactly as a file's contents would be, with the object's name
//! standing for the file name.  Listing and fetching are broker calls made
//! at the edge of the program; what the source does with the fetched bytes
//! is verified here.

use vstd::prelude::*;
use crate::event::{ChannelMessage, ChannelMessageView};

verus! {

/// Errors raised while building or running the object-store source.
#[derive(Debug)]
pub enum Error {
    /// A required attribute was not provided to the builder.
    MissingRequiredAttribute(String),
}

/// Configuration of the object-store source.
pub struct Source {
    /// Path of the credentials file for the broker.
    pub credentials: Vec<u8>,
    /// The object-store bucket to read.
    pub bucket: Vec<u8>,
    /// The stream backing the bucket.
    pub stream: Vec<u8>,
    /// The subject filter within the stream.
    pub subject: Vec<u8>,
    /// The durable consumer name.
    pub durable_name: Vec<u8>,
    /// How many records to take per batch.
    pub batch_size: Option<usize>,
    /// An optional delay between batches, in seconds.
    pub delay_secs: Option<u64>,
    /// Whether fetched objects start with a header record.  Absent means
    /// yes.
    pub has_header: Option<bool>,
}

/// Configuration of the object-store target.
pub struct Target {
    /// Path of the credentials file for the broker.
    pub credentials: Vec<u8>,
    /// The stream to own.
    pub stream: Vec<u8>,
    /// An optional human-readable description of the stream.
    pub stream_description: Option<Vec<u8>>,
    /// The subjects bound to the stream.
    pub subjects: Vec<Vec<u8>>,
    /// An optional retention age for the stream's messages, in seconds.
    pub max_age: Option<u64>,
}

/// The chunk messages the fetched objects produce, object by object: each
/// object's records become one-row chunks named by the object and the
/// record's ordinal.
pub open spec fn spec_object_msgs(objects: Seq<(Vec<u8>, Vec<u8>)>, has_header: bool) -> Seq<
    ChannelMessageView,
>
    decreases objects.len(),
{
    if objects.len() == 0 {
        Seq::empty()
    } else {
        crate::file::spec_source_msgs(objects[0].0@, objects[0].1@, has_header)
            + spec_object_msgs(objects.drop_first(), has_header)
    }
}

/// Whether every record of every object matched its object's header:
/// nothing was skipped.
pub open spec fn spec_objects_clean(objects: Seq<(Vec<u8>, Vec<u8>)>, has_header: bool) -> bool {
    forall|i: int|
        0 <= i < objects.len() ==> crate::file::spec_source_clean(
            (#[trigger] objects[i]).1@,
            has_header,
        )
}

/// What one run of the object-store source produced.
pub struct SourceBatch {
    /// The chunk messages, object by object, in record order.
    pub messages: Vec<ChannelMessage>,
    /// Whether every record matched its object's header.
    pub clean: bool,
}

/// The object-store source, bound to its stage id.
pub struct Subscriber {
    config: Source,
    current_task_id: usize,
}

impl Subscriber {
    /// The configured stage id.
    pub closed spec fn spec_current_task_id(&self) -> usize {
        self.current_task_id
    }

    /// Whether the configured objects start with a header record.
    pub closed spec fn spec_has_header(&self) -> bool {
        match self.config.has_header {
            Some(b) => b,
            None => true,
        }
    }

    /// Normalize the fetched objects into bus messages: each object's
    /// contents are parsed as comma-separated records and carried as one
    /// one-row chunk message per record, with columns named by the object's
    /// header and the chunk identified by the object's name and the
    /// record's ordinal.  Records whose field count does not match their
    /// object's header are skipped, and the batch says so.  The objects
    /// themselves were fetched from the bucket at the edge of the program.
    pub fn subscribe(self, objects: Vec<(Vec<u8>, Vec<u8>)>) -> (r: Result<SourceBatch, Error>)
        ensures
            r matches Ok(batch) && batch.messages@.map_values(|m: ChannelMessage| m@)
                == spec_object_msgs(objects@, self.spec_has_header()) && batch.clean
                == spec_objects_clean(objects@, self.spec_has_header()),
    {
        let has_header = match self.config.has_header {
            Some(b) => b,
            None => true,
        };
        let mut clean = true;
        let messages = normalize_from(&objects, 0, has_header, &mut clean);
        proof {
            assert(objects@.skip(0) =~= objects@);
        }
        Ok(SourceBatch { messages, clean })
    }
}

fn normalize_from(
    objects: &Vec<(Vec<u8>, Vec<u8>)>,
    from: usize,
    has_header: bool,
    clean: &mut bool,
) -> (r: Vec<ChannelMessage>)
    requires
        from <= objects@.len(),
    ensures
        r@.map_values(|m: ChannelMessage| m@) == spec_object_msgs(
            objects@.skip(from as int),
            has_header,
        ),
        *final(clean) == (*old(clean) && (forall|j: int|
            from <= j < objects@.len() ==> crate::file::spec_source_clean(
                (#[trigger] objects@[j]).1@,
                has_header,
            ))),
    decreases objects@.len() - from,
{
    let ghost tail = objects@.skip(from as int);
    if from == objects.len() {
        let r: Vec<ChannelMessage> = Vec::new();
        proof {
            assert(tail =~= Seq::<(Vec<u8>, Vec<u8>)>::empty());
            assert(r@.map_values(|m: ChannelMessage| m@) =~= spec_object_msgs(tail, has_header));
        }
        r
    } else {
        proof {
            assert(tail[0] == objects@[from as int]);
            assert(tail.drop_first() =~= objects@.skip(from + 1));
        }
        let source = crate::file::Subscriber {
            path: crate::text::clone_bytes(&objects[from].0),
            batch_size: None,
            has_header: Some(has_header),
        };
        let batch = source.subscribe(&objects[from].1);
        let ghost head_clean = crate::file::spec_source_clean(
            objects@[from as int].1@,
            has_header,
        );
        if !batch.clean {
            *clean = false;
        }
        let mut head = batch.messages;
        let ghost head_view = head@.map_values(|m: ChannelMessage| m@);
        let mut rest = normalize_from(objects, from + 1, has_header, clean);
        let ghost rest_view = rest@.map_values(|m: ChannelMessage| m@);
        head.append(&mut rest);
        proof {
            assert forall|i: int|
                0 <= i < head@.len() implies head@.map_values(|m: ChannelMessage| m@)[i] == (
            #[trigger] (head_view + rest_view)[i]) by {
                if i < head_view.len() {
                } else {
                }
            }
            assert(head@.map_values(|m: ChannelMessage| m@) =~= head_view + rest_view);
            assert(head@.map_values(|m: ChannelMessage| m@) =~= spec_object_msgs(
                tail,
                has_header,
            ));
            assert((head_clean && (forall|j: int|
                from + 1 <= j < objects@.len() ==> crate::file::spec_source_clean(
                    (#[trigger] objects@[j]).1@,
                    has_header,
                ))) == (forall|j: int|
                from <= j < objects@.len() ==> crate::file::spec_source_clean(
                    (#[trigger] objects@[j]).1@,
                    has_header,
                ))) by {
                if head_clean && (forall|j: int|
                    from + 1 <= j < objects@.len() ==> crate::file::spec_source_clean(
                        (#[trigger] objects@[j]).1@,
                        has_header,
                    )) {
                    assert forall|j: int|
                        from <= j < objects@.len() implies crate::file::spec_source_clean(
                        (#[trigger] objects@[j]).1@,
                        has_header,
                    ) by {
                        if j == from {
                            assert(crate::file::spec_source_clean(
                                objects@[from as int].1@,
                                has_header,
                            ));
                        }
                    }
                }
                if (forall|j: int|
                    from <= j < objects@.len() ==> crate::file::spec_source_clean(
                        (#[trigger] objects@[j]).1@,
                        has_header,
                    )) {
                    assert(crate::file::spec_source_clean(objects@[from as int].1@, has_header));
                }
            }
        }
        head
    }
}

/// Builder for the object-store source.
pub struct SubscriberBuilder {
    config: Option<Source>,
    current_task_id: usize,
}

impl SubscriberBuilder {
    /// Whether a configuration was set.
    pub closed spec fn spec_has_config(&self) -> bool {
        self.config is Some
    }

    /// Whether the configured objects start with a header record, so far.
    pub closed spec fn spec_has_header(&self) -> bool {
        match self.config->0.has_header {
            Some(b) => b,
            None => true,
        }
    }

    /// The stage id set so far.
    pub closed spec fn spec_current_task_id(&self) -> usize {
        self.current_task_id
    }

    /// Creates a new builder with nothing set.
    pub fn new() -> (r: SubscriberBuilder)
        ensures
            !r.spec_has_config(),
            r.spec_current_task_id() == 0,
    {
        SubscriberBuilder { config: None, current_task_id: 0 }
    }

    /// Sets the source configuration.
    pub fn config(self, config: Source) -> (r: SubscriberBuilder)
        ensures
            r.spec_has_config(),
            r.spec_current_task_id() == self.spec_current_task_id(),
            config.has_header matches Some(b) ==> r.spec_has_header() == b,
            config.has_header is None ==> r.spec_has_header(),
    {
        SubscriberBuilder { config: Some(config), ..self }
    }

    /// Sets the stage id of this source.
    pub fn current_task_id(self, current_task_id: usize) -> (r: SubscriberBuilder)
        ensures
            r.spec_current_task_id() == current_task_id,
            r.spec_has_config() == self.spec_has_config(),
            r.spec_has_config() ==> r.spec_has_header() == self.spec_has_header(),
    {
        SubscriberBuilder { current_task_id, ..self }
    }

    /// Builds the source.  Fails when the configuration was not provided,
    /// naming it.
    pub fn build(self) -> (r: Result<Subscriber, Error>)
        ensures
            r is Ok <==> self.spec_has_config(),
            r matches Ok(s) ==> s.spec_current_task_id() == self.spec_current_task_id()
                && s.spec_has_header() == self.spec_has_header(),
            r matches Err(e) ==> e matches Error::MissingRequiredAttribute(s) && s@ == "config"@,
    {
        match self.config {
            Some(config) => Ok(Subscriber { config, current_task_id: self.current_task_id }),
            None => Err(Error::MissingRequiredAttribute("config".to_owned())),
        }
    }
}

} // verus!
