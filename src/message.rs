use vstd::prelude::*;

verus! {

/// Asks the server that owns the session of `user_id` to drop it.
pub struct KickMsg {
    pub user_id: String,
}

/// A payload delivered to the session of user `uid`.
pub struct Push {
    pub route: String,
    pub uid: String,
    pub data: Vec<u8>,
}

/// A message carried by a request: its id, the handler route, the opaque
/// payload, the reply subject and the message type.
pub struct Msg {
    pub id: u64,
    pub route: String,
    pub data: Vec<u8>,
    pub reply: String,
    pub msg_type: i32,
}

/// What a `Msg` holds, as mathematical values.
pub struct MsgModel {
    pub id: u64,
    pub route: Seq<char>,
    pub data: Seq<u8>,
    pub reply: Seq<char>,
    pub msg_type: i32,
}

impl View for Msg {
    type V = MsgModel;

    open spec fn view(&self) -> MsgModel {
        MsgModel {
            id: self.id,
            route: self.route@,
            data: self.data@,
            reply: self.reply@,
            msg_type: self.msg_type,
        }
    }
}

/// A call to a handler of another server: the kind of call, the message,
/// the frontend server the call came through and opaque metadata.
pub struct Request {
    pub rpc_type: i32,
    pub msg: Option<Msg>,
    pub frontend_id: String,
    pub metadata: Vec<u8>,
}

/// What a `Request` holds, as mathematical values.
pub struct RequestModel {
    pub rpc_type: i32,
    pub msg: Option<MsgModel>,
    pub frontend_id: Seq<char>,
    pub metadata: Seq<u8>,
}

impl View for Request {
    type V = RequestModel;

    open spec fn view(&self) -> RequestModel {
        RequestModel {
            rpc_type: self.rpc_type,
            msg: match self.msg {
                Some(m) => Some(m@),
                None => None,
            },
            frontend_id: self.frontend_id@,
            metadata: self.metadata@,
        }
    }
}

/// The application-level failure a handler may answer with.
pub struct ResponseError {
    pub code: String,
    pub msg: String,
}

/// What a `ResponseError` holds, as mathematical values.
pub struct ResponseErrorModel {
    pub code: Seq<char>,
    pub msg: Seq<char>,
}

impl View for ResponseError {
    type V = ResponseErrorModel;

    open spec fn view(&self) -> ResponseErrorModel {
        ResponseErrorModel { code: self.code@, msg: self.msg@ }
    }
}

/// A handler's answer: an opaque payload and, where the handler failed, the
/// failure.
pub struct Response {
    pub data: Vec<u8>,
    pub error: Option<ResponseError>,
}

/// What a `Response` holds, as mathematical values.
pub struct ResponseModel {
    pub data: Seq<u8>,
    pub error: Option<ResponseErrorModel>,
}

impl View for Response {
    type V = ResponseModel;

    open spec fn view(&self) -> ResponseModel {
        ResponseModel {
            data: self.data@,
            error: match self.error {
                Some(e) => Some(e@),
                None => None,
            },
        }
    }
}

/// The acknowledgement of a kick.
pub struct KickAnswer {
    pub kicked: bool,
}

} // verus!
