use vstd::prelude::*;

use crate::airplane_map::AirplaneMap;
use crate::model::RequestModel;
use crate::model::ResponseModel;
use crate::model::answer;
use crate::model::step_map;

verus! {

/// The state of one airplane: its identifier (the primary key of the
/// registry) and its last reported altitude.
#[derive(Debug)]
pub struct AirplaneStatus {
    pub identifier: String,
    pub altitude: i32,
}

impl View for AirplaneStatus {
    type V = (Seq<char>, i32);

    open spec fn view(&self) -> (Seq<char>, i32) {
        (self.identifier@, self.altitude)
    }
}

impl AirplaneStatus {
    pub fn new(identifier: String, altitude: i32) -> (r: AirplaneStatus)
        ensures
            r@ == (identifier@, altitude),
    {
        AirplaneStatus { identifier, altitude }
    }
}

/// A lookup key: an airplane identifier without a measurement.
#[derive(Debug)]
pub struct AirplaneId {
    pub identifier: String,
}

impl View for AirplaneId {
    type V = Seq<char>;

    open spec fn view(&self) -> Seq<char> {
        self.identifier@
    }
}

impl AirplaneId {
    pub fn new(identifier: String) -> (r: AirplaneId)
        ensures
            r@ == identifier@,
    {
        AirplaneId { identifier }
    }
}

/// One operation on the registry. An `Add` carries no reply channel
/// (fire-and-forget); each read carries the single-use channel on which its
/// one reply is delivered.
pub enum Request {
    Add(AirplaneStatus),
    GetAirplane((AirplaneId, tokio::sync::oneshot::Sender<Response>)),
    GetDB(tokio::sync::oneshot::Sender<Response>),
}

impl View for Request {
    type V = RequestModel;

    open spec fn view(&self) -> RequestModel {
        match self {
            Request::Add(airplane) => RequestModel::Add {
                identifier: airplane.identifier@,
                altitude: airplane.altitude,
            },
            Request::GetAirplane((airplane_id, _)) => RequestModel::GetAirplane {
                identifier: airplane_id@,
            },
            Request::GetDB(_) => RequestModel::GetDB,
        }
    }
}

/// One reply of the registry: the looked-up airplane (or its absence), or a
/// snapshot of the whole map.
#[derive(Debug)]
pub enum Response {
    Airplane(Option<AirplaneStatus>),
    Database(AirplaneMap),
}

impl View for Response {
    type V = ResponseModel;

    open spec fn view(&self) -> ResponseModel {
        match self {
            Response::Airplane(status) => ResponseModel::Airplane(
                match status {
                    Some(airplane) => Some(airplane@),
                    None => None,
                },
            ),
            Response::Database(snapshot) => ResponseModel::Database(snapshot@),
        }
    }
}

/// The registry actor: it owns the map exclusively and drains its inbound
/// channel one request at a time, performing each operation inline before
/// taking the next message (the serialized strategy, so the total order of
/// effects is the arrival order).
pub struct Database {
    airplane_list: AirplaneMap,
    command_channel: tokio::sync::mpsc::Receiver<Request>,
}

impl View for Database {
    type V = Map<Seq<char>, i32>;

    closed spec fn view(&self) -> Map<Seq<char>, i32> {
        self.airplane_list@
    }
}

impl Database {
    /// A fresh actor over the given inbound channel, with an empty map.
    pub fn new(command_channel: tokio::sync::mpsc::Receiver<Request>) -> (db: Database)
        ensures
            db@ == Map::<Seq<char>, i32>::empty(),
    {
        Database { airplane_list: AirplaneMap::new(), command_channel }
    }

    /// Inserts or overwrites the entry for `airplane.identifier`.
    pub fn add_airplane(&mut self, airplane: AirplaneStatus)
        ensures
            final(self)@ == old(self)@.insert(airplane.identifier@, airplane.altitude),
    {
        self.airplane_list.insert(airplane);
    }

    /// The reply to a lookup of `airplane_id`: the stored airplane under
    /// that identifier, or absence when the identifier was never written.
    pub fn get_airplane(&self, airplane_id: &AirplaneId) -> (r: Response)
        ensures
            Some(r@) == answer(self@, RequestModel::GetAirplane { identifier: airplane_id@ }),
    {
        match self.airplane_list.get(&airplane_id.identifier) {
            Some(altitude) => Response::Airplane(
                Some(AirplaneStatus::new(airplane_id.identifier.clone(), altitude)),
            ),
            None => Response::Airplane(None),
        }
    }

    /// The reply to a snapshot request: a copy of the current map, which
    /// later mutation of the live registry leaves as it was.
    pub fn get_database(&self) -> (r: Response)
        ensures
            Some(r@) == answer(self@, RequestModel::GetDB),
    {
        Response::Database(self.airplane_list.duplicate())
    }

    /// Processes one request: the map changes exactly as the model's step
    /// says, whatever becomes of the reply. A read's reply is the one
    /// [`answer`] gives for the current map; if the caller abandoned its
    /// reply channel the reply is discarded, never waited on.
    pub fn process_message(&mut self, command: Request)
        ensures
            final(self)@ == step_map(old(self)@, command@),
    {
        match command {
            Request::Add(airplane) => self.add_airplane(airplane),
            Request::GetAirplane((airplane_id, response_channel)) => {
                let response = self.get_airplane(&airplane_id);
                // A gone caller must not stall the actor: discard on failure.
                let _ = response_channel.send(response);
            },
            Request::GetDB(response_channel) => {
                let response = self.get_database();
                let _ = response_channel.send(response);
            },
        }
    }

    /// One turn of the actor's worker loop: blocks until the next request
    /// arrives and processes it inline, or returns `false` once the inbound
    /// channel is closed and drained. The caller loops over this until it
    /// returns `false`; whatever arrives, the map only ever changes by one
    /// model step per request.
    pub fn process_next_message(&mut self) -> (more: bool)
        ensures
            !more ==> final(self)@ == old(self)@,
            more ==> exists|r: RequestModel| final(self)@ == step_map(old(self)@, r),
    {
        match self.command_channel.blocking_recv() {
            Some(command) => {
                let ghost r = command@;
                self.process_message(command);
                proof {
                    assert(self@ == step_map(old(self)@, r));
                }
                true
            },
            None => false,
        }
    }
}

} // verus!
