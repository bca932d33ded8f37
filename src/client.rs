//! The machine side: what a machine registers before it connects, the
//! state of its connection, and what it does with each message it gets.
use vstd::prelude::*;
use crate::errors::ErrorCode;
use crate::json::{Json, JsonV, JsonValue, Number, lookup, member, lemma_object_view};
use crate::marshall::{
    InputValue, InputV, MarshalError, OutputSlot, OutputV, input_spec, marshal_input,
    output_spec, output_to_json, read_as_owed,
};
use crate::message::{
    Axis, AxisV, BufferMethod, Function, FunctionV, Message, MessageInner, InnerV, Sensor, SensorV,
    Stream, StreamV,
};
use crate::registry::{
    TypeMap, descriptor_entries, first_named, names_of, parse_descriptors, parse_descriptors_spec,
    position_by_name, type_map_entry, type_map_len,
};
use crate::types::{PrimType, Type, type_code};

verus! {

broadcast use vstd::std_specs::vec::group_vec_axioms;

/// A registered function: its parameters and returns in declared order,
/// and the native callback.
pub struct RegisteredFunction<C> {
    pub parameters: TypeMap,
    pub returns: TypeMap,
    pub callback: C,
}

/// A registered sensor: a `double` output with its range.
pub struct RegisteredSensor<C> {
    pub output_type: Type,
    pub min: Number,
    pub max: Number,
    pub callback: C,
}

/// A registered axis: a `double` input with its range and labels.
pub struct RegisteredAxis<C> {
    pub input_type: Type,
    pub min: Number,
    pub max: Number,
    pub group: String,
    pub direction: String,
    pub callback: C,
}

/// A registered stream: its format and the file descriptor it is read from.
pub struct RegisteredStream {
    pub format: String,
    pub fd: i32,
}

/// A machine that has not connected yet: it may still register capabilities.
pub struct UnconnectedClient<C> {
    pub name: Option<String>,
    pub reset: Option<C>,
    pub functions: Vec<(String, RegisteredFunction<C>)>,
    pub sensors: Vec<(String, RegisteredSensor<C>)>,
    pub axes: Vec<(String, RegisteredAxis<C>)>,
    pub streams: Vec<(String, RegisteredStream)>,
}

/// A machine that has connected; what it offers is fixed.
pub struct ConnectedClient<C> {
    pub name: String,
    pub reset: Option<C>,
    pub functions: Vec<(String, RegisteredFunction<C>)>,
    pub sensors: Vec<(String, RegisteredSensor<C>)>,
    pub axes: Vec<(String, RegisteredAxis<C>)>,
    pub streams: Vec<(String, RegisteredStream)>,
}

/// A machine library handle, in one of its two states.
pub enum ClientHandle<C> {
    Unconnected(UnconnectedClient<C>),
    Connected(ConnectedClient<C>),
}

/// Within each registry no two entries share a name.
pub open spec fn names_unique<C>(
    functions: Seq<(String, RegisteredFunction<C>)>,
    sensors: Seq<(String, RegisteredSensor<C>)>,
    axes: Seq<(String, RegisteredAxis<C>)>,
    streams: Seq<(String, RegisteredStream)>,
) -> bool {
    &&& names_of(functions).no_duplicates()
    &&& names_of(sensors).no_duplicates()
    &&& names_of(axes).no_duplicates()
    &&& names_of(streams).no_duplicates()
}

impl<C> ClientHandle<C> {
    /// No two functions, sensors, axes or streams are registered under one
    /// name.
    pub open spec fn wf(&self) -> bool {
        match self {
            ClientHandle::Unconnected(c) => names_unique(c.functions@, c.sensors@, c.axes@, c.streams@),
            ClientHandle::Connected(c) => names_unique(c.functions@, c.sensors@, c.axes@, c.streams@),
        }
    }

    /// A handle that has not connected and has nothing registered.
    pub fn new() -> (r: ClientHandle<C>)
        ensures
            r.wf(),
            r is Unconnected,
            r->Unconnected_0.name is None,
            r->Unconnected_0.reset is None,
            r->Unconnected_0.functions@.len() == 0,
            r->Unconnected_0.sensors@.len() == 0,
            r->Unconnected_0.axes@.len() == 0,
            r->Unconnected_0.streams@.len() == 0,
    {
        let r = ClientHandle::Unconnected(
            UnconnectedClient {
                name: None,
                reset: None,
                functions: Vec::new(),
                sensors: Vec::new(),
                axes: Vec::new(),
                streams: Vec::new(),
            },
        );
        proof {
            assert(names_of(Seq::<(String, RegisteredFunction<C>)>::empty()) =~= Seq::empty());
            assert(names_of(Seq::<(String, RegisteredSensor<C>)>::empty()) =~= Seq::empty());
            assert(names_of(Seq::<(String, RegisteredAxis<C>)>::empty()) =~= Seq::empty());
            assert(names_of(Seq::<(String, RegisteredStream)>::empty()) =~= Seq::empty());
        }
        r
    }

    /// Sets the machine's name; only before connecting.
    pub fn set_name(&mut self, name: String) -> (r: ErrorCode)
        requires
            old(self).wf(),
        ensures
            final(self).wf(),
            match *old(self) {
                ClientHandle::Connected(_) => r == ErrorCode::AlreadyConnected && *final(self)
                    == *old(self),
                ClientHandle::Unconnected(c) => r == ErrorCode::NoError && *final(self)
                    == ClientHandle::Unconnected(UnconnectedClient { name: Some(name), ..c }),
            },
    {
        match self {
            ClientHandle::Connected(_) => ErrorCode::AlreadyConnected,
            ClientHandle::Unconnected(c) => {
                c.name = Some(name);
                ErrorCode::NoError
            },
        }
    }

    /// Sets, or with `None` clears, the reset callback; only before connecting.
    pub fn set_reset(&mut self, reset: Option<C>) -> (r: ErrorCode)
        requires
            old(self).wf(),
        ensures
            final(self).wf(),
            match *old(self) {
                ClientHandle::Connected(_) => r == ErrorCode::AlreadyConnected && *final(self)
                    == *old(self),
                ClientHandle::Unconnected(c) => r == ErrorCode::NoError && *final(self)
                    == ClientHandle::Unconnected(UnconnectedClient { reset, ..c }),
            },
    {
        match self {
            ClientHandle::Connected(_) => ErrorCode::AlreadyConnected,
            ClientHandle::Unconnected(c) => {
                c.reset = reset;
                ErrorCode::NoError
            },
        }
    }

    /// Registers a function under `name` with its parameters and returns
    /// given as name/type-code pairs, in order. Fails once connected, when a
    /// function has that name already, or when a type code is unknown.
    pub fn register_function(
        &mut self,
        name: String,
        parameters: &Vec<(String, String)>,
        rets: &Vec<(String, String)>,
        callback: C,
    ) -> (r: ErrorCode)
        requires
            old(self).wf(),
        ensures
            final(self).wf(),
            match *old(self) {
                ClientHandle::Connected(_) => r == ErrorCode::AlreadyConnected && *final(self)
                    == *old(self),
                ClientHandle::Unconnected(c) => if names_of(c.functions@).contains(name@) {
                    r == ErrorCode::DuplicateName && *final(self) == *old(self)
                } else {
                    match (
                        parse_descriptors_spec(parameters.deep_view()),
                        parse_descriptors_spec(rets.deep_view()),
                    ) {
                        (Some(p), Some(q)) => {
                            let fs = final(self)->Unconnected_0.functions@;
                            &&& r == ErrorCode::NoError
                            &&& *final(self) == ClientHandle::Unconnected(
                                UnconnectedClient {
                                    functions: final(self)->Unconnected_0.functions,
                                    ..c
                                },
                            )
                            &&& fs.drop_last() == c.functions@
                            &&& fs.len() == c.functions@.len() + 1
                            &&& fs.last().0 == name
                            &&& descriptor_entries(fs.last().1.parameters) == p
                            &&& descriptor_entries(fs.last().1.returns) == q
                            &&& fs.last().1.callback == callback
                        },
                        _ => r == ErrorCode::InvalidParameter && *final(self) == *old(self),
                    }
                },
            },
    {
        match self {
            ClientHandle::Connected(_) => ErrorCode::AlreadyConnected,
            ClientHandle::Unconnected(c) => {
                if position_by_name(&c.functions, &name).is_some() {
                    proof {
                        crate::registry::lemma_first_named(names_of(c.functions@), name@);
                    }
                    return ErrorCode::DuplicateName;
                }
                proof {
                    crate::registry::lemma_first_named(names_of(c.functions@), name@);
                }
                let p = match parse_descriptors(parameters) {
                    Some(p) => p,
                    None => {
                        return ErrorCode::InvalidParameter;
                    },
                };
                let q = match parse_descriptors(rets) {
                    Some(q) => q,
                    None => {
                        return ErrorCode::InvalidParameter;
                    },
                };
                let ghost before = c.functions@;
                let e = (name, RegisteredFunction { parameters: p, returns: q, callback });
                proof {
                    crate::registry::lemma_push_unique_name(c.functions@, e);
                }
                c.functions.push(e);
                proof {
                    assert(c.functions@.drop_last() =~= before);
                }
                ErrorCode::NoError
            },
        }
    }
}

} // verus!

verus! {

impl<C> ClientHandle<C> {
    /// Registers a sensor with a `double` output; fails once connected or
    /// when a sensor has that name already.
    pub fn register_sensor(&mut self, name: String, min: Number, max: Number, callback: C) -> (r:
        ErrorCode)
        requires
            old(self).wf(),
        ensures
            final(self).wf(),
            match *old(self) {
                ClientHandle::Connected(_) => r == ErrorCode::AlreadyConnected && *final(self)
                    == *old(self),
                ClientHandle::Unconnected(c) => if names_of(c.sensors@).contains(name@) {
                    r == ErrorCode::DuplicateName && *final(self) == *old(self)
                } else {
                    &&& r == ErrorCode::NoError
                    &&& *final(self) == ClientHandle::Unconnected(
                        UnconnectedClient { sensors: final(self)->Unconnected_0.sensors, ..c },
                    )
                    &&& final(self)->Unconnected_0.sensors@ == c.sensors@.push(
                        (
                            name,
                            RegisteredSensor {
                                output_type: Type::Prim(PrimType::Double),
                                min,
                                max,
                                callback,
                            },
                        ),
                    )
                },
            },
    {
        match self {
            ClientHandle::Connected(_) => ErrorCode::AlreadyConnected,
            ClientHandle::Unconnected(c) => {
                let found = position_by_name(&c.sensors, &name);
                proof {
                    crate::registry::lemma_first_named(names_of(c.sensors@), name@);
                }
                if found.is_some() {
                    return ErrorCode::DuplicateName;
                }
                let e = (
                    name,
                    RegisteredSensor { output_type: Type::Prim(PrimType::Double), min, max, callback },
                );
                proof {
                    crate::registry::lemma_push_unique_name(c.sensors@, e);
                }
                c.sensors.push(e);
                ErrorCode::NoError
            },
        }
    }

    /// Registers an axis with a `double` input; absent labels are empty.
    /// Fails once connected or when an axis has that name already.
    pub fn register_axis(
        &mut self,
        name: String,
        min: Number,
        max: Number,
        group: String,
        direction: String,
        callback: C,
    ) -> (r: ErrorCode)
        requires
            old(self).wf(),
        ensures
            final(self).wf(),
            match *old(self) {
                ClientHandle::Connected(_) => r == ErrorCode::AlreadyConnected && *final(self)
                    == *old(self),
                ClientHandle::Unconnected(c) => if names_of(c.axes@).contains(name@) {
                    r == ErrorCode::DuplicateName && *final(self) == *old(self)
                } else {
                    &&& r == ErrorCode::NoError
                    &&& *final(self) == ClientHandle::Unconnected(
                        UnconnectedClient { axes: final(self)->Unconnected_0.axes, ..c },
                    )
                    &&& final(self)->Unconnected_0.axes@ == c.axes@.push(
                        (
                            name,
                            RegisteredAxis {
                                input_type: Type::Prim(PrimType::Double),
                                min,
                                max,
                                group,
                                direction,
                                callback,
                            },
                        ),
                    )
                },
            },
    {
        match self {
            ClientHandle::Connected(_) => ErrorCode::AlreadyConnected,
            ClientHandle::Unconnected(c) => {
                let found = position_by_name(&c.axes, &name);
                proof {
                    crate::registry::lemma_first_named(names_of(c.axes@), name@);
                }
                if found.is_some() {
                    return ErrorCode::DuplicateName;
                }
                let e = (
                    name,
                    RegisteredAxis {
                        input_type: Type::Prim(PrimType::Double),
                        min,
                        max,
                        group,
                        direction,
                        callback,
                    },
                );
                proof {
                    crate::registry::lemma_push_unique_name(c.axes@, e);
                }
                c.axes.push(e);
                ErrorCode::NoError
            },
        }
    }

    /// Registers a stream read from file descriptor `fd`. Fails on a
    /// negative descriptor, once connected, or when a stream has that name
    /// already.
    pub fn register_stream(&mut self, name: String, format: String, fd: i32) -> (r: ErrorCode)
        requires
            old(self).wf(),
        ensures
            final(self).wf(),
            fd < 0 ==> r == ErrorCode::InvalidParameter && *final(self) == *old(self),
            fd >= 0 ==> match *old(self) {
                ClientHandle::Connected(_) => r == ErrorCode::AlreadyConnected && *final(self)
                    == *old(self),
                ClientHandle::Unconnected(c) => if names_of(c.streams@).contains(name@) {
                    r == ErrorCode::DuplicateName && *final(self) == *old(self)
                } else {
                    &&& r == ErrorCode::NoError
                    &&& *final(self) == ClientHandle::Unconnected(
                        UnconnectedClient { streams: final(self)->Unconnected_0.streams, ..c },
                    )
                    &&& final(self)->Unconnected_0.streams@ == c.streams@.push(
                        (name, RegisteredStream { format, fd }),
                    )
                },
            },
    {
        if fd < 0 {
            return ErrorCode::InvalidParameter;
        }
        match self {
            ClientHandle::Connected(_) => ErrorCode::AlreadyConnected,
            ClientHandle::Unconnected(c) => {
                let found = position_by_name(&c.streams, &name);
                proof {
                    crate::registry::lemma_first_named(names_of(c.streams@), name@);
                }
                if found.is_some() {
                    return ErrorCode::DuplicateName;
                }
                let e = (name, RegisteredStream { format, fd });
                proof {
                    crate::registry::lemma_push_unique_name(c.streams@, e);
                }
                c.streams.push(e);
                ErrorCode::NoError
            },
        }
    }

    /// Moves to the connected state, keeping everything registered. Fails
    /// when already connected or when no name was set.
    pub fn connect(&mut self) -> (r: ErrorCode)
        requires
            old(self).wf(),
        ensures
            final(self).wf(),
            match *old(self) {
                ClientHandle::Connected(_) => r == ErrorCode::AlreadyConnected && *final(self)
                    == *old(self),
                ClientHandle::Unconnected(c) => match c.name {
                    None => r == ErrorCode::MissingRequiredValue && *final(self) == *old(self),
                    Some(n) => r == ErrorCode::NoError && *final(self) == ClientHandle::Connected(
                        ConnectedClient {
                            name: n,
                            reset: c.reset,
                            functions: c.functions,
                            sensors: c.sensors,
                            axes: c.axes,
                            streams: c.streams,
                        },
                    ),
                },
            },
    {
        let mut old_self = ClientHandle::new();
        core::mem::swap(self, &mut old_self);
        match old_self {
            ClientHandle::Connected(c) => {
                *self = ClientHandle::Connected(c);
                ErrorCode::AlreadyConnected
            },
            ClientHandle::Unconnected(c) => {
                match c.name {
                    None => {
                        *self = ClientHandle::Unconnected(c);
                        ErrorCode::MissingRequiredValue
                    },
                    Some(n) => {
                        *self = ClientHandle::Connected(
                            ConnectedClient {
                                name: n,
                                reset: c.reset,
                                functions: c.functions,
                                sensors: c.sensors,
                                axes: c.axes,
                                streams: c.streams,
                            },
                        );
                        ErrorCode::NoError
                    },
                }
            },
        }
    }
}

/// What the server's answer to a machine description means: an accepted
/// setup is success, a rejected one `ConnectionRejected`, anything else an
/// invalid message.
pub fn setup_outcome(m: &Message) -> (r: ErrorCode)
    ensures
        r == match m.deep_view().inner {
            InnerV::SetupResponse { connected } => if connected {
                ErrorCode::NoError
            } else {
                ErrorCode::ConnectionRejected
            },
            _ => ErrorCode::InvalidMessageReceived,
        },
{
    match &m.inner {
        MessageInner::SetupResponse { connected } => if *connected {
            ErrorCode::NoError
        } else {
            ErrorCode::ConnectionRejected
        },
        _ => ErrorCode::InvalidMessageReceived,
    }
}

} // verus!

verus! {

/// The parameter declared as `d`, read from the call's parameters.
pub open spec fn marshal_one(d: (Seq<char>, Type), params: Seq<(Seq<char>, JsonV)>) -> Result<
    InputV,
    MarshalError,
> {
    match lookup(params, d.0) {
        None => Err(MarshalError::MissingParameter),
        Some(j) => input_spec(d.1, j),
    }
}

/// The declared parameters, in declared order, read from the call's
/// parameters; the first that fails decides the error.
pub open spec fn marshal_all(decl: Seq<(Seq<char>, Type)>, params: Seq<(Seq<char>, JsonV)>) -> Result<
    Seq<InputV>,
    MarshalError,
>
    decreases decl.len(),
{
    if decl.len() == 0 {
        Ok(Seq::empty())
    } else {
        match marshal_one(decl[0], params) {
            Err(e) => Err(e),
            Ok(v) => match marshal_all(decl.drop_first(), params) {
                Err(e) => Err(e),
                Ok(vs) => Ok(seq![v] + vs),
            },
        }
    }
}

/// A successful marshalling yields one value per declared parameter.
pub proof fn lemma_marshal_all_arity(decl: Seq<(Seq<char>, Type)>, params: Seq<(Seq<char>, JsonV)>)
    ensures
        marshal_all(decl, params) is Ok ==> marshal_all(decl, params)->Ok_0.len() == decl.len(),
    decreases decl.len(),
{
    if decl.len() > 0 {
        lemma_marshal_all_arity(decl.drop_first(), params);
    }
}

/// The return slots as JSON members named by the declared returns, in order.
pub open spec fn collect_spec(decl: Seq<(Seq<char>, Type)>, outs: Seq<OutputV>) -> Result<
    Seq<(Seq<char>, JsonV)>,
    MarshalError,
>
    decreases decl.len(),
{
    if decl.len() == 0 || outs.len() == 0 {
        Ok(Seq::empty())
    } else {
        match output_spec(outs[0]) {
            Err(e) => Err(e),
            Ok(j) => match collect_spec(decl.drop_first(), outs.drop_first()) {
                Err(e) => Err(e),
                Ok(rest) => Ok(seq![(decl[0].0, j)] + rest),
            },
        }
    }
}

/// Reads the declared parameters from a call's parameters, in declared order.
/// On success there is exactly one value per declared parameter, so the
/// native callback gets as many parameter pointers as it declared.
pub fn marshal_parameters(decl: &TypeMap, params: &Vec<(String, Json)>) -> (r: Result<
    Vec<InputValue>,
    MarshalError,
>)
    ensures
        match marshal_all(descriptor_entries(*decl), params.deep_view()) {
            Ok(vs) => r is Ok && r->Ok_0.deep_view() == vs,
            Err(e) => r == Err::<Vec<InputValue>, MarshalError>(e),
        },
        r is Ok ==> r->Ok_0@.len() == descriptor_entries(*decl).len(),
{
    let ghost d = descriptor_entries(*decl);
    let n = type_map_len(decl);
    let ghost p = params.deep_view();
    let mut out: Vec<InputValue> = Vec::new();
    let mut i: usize = 0;
    proof {
        assert(d.subrange(0, d.len() as int) =~= d);
        assert(out.deep_view() =~= Seq::<InputV>::empty());
        assert(match marshal_all(d, p) {
            Ok(vs) => marshal_all(d, p) == Ok::<Seq<InputV>, MarshalError>(Seq::empty() + vs),
            Err(e) => true,
        }) by {
            if let Ok(vs) = marshal_all(d, p) {
                assert(Seq::<InputV>::empty() + vs =~= vs);
            }
        }
    }
    while i < n
        invariant
            i <= n,
            n == d.len(),
            d == descriptor_entries(*decl),
            p == params.deep_view(),
            match marshal_all(d.subrange(i as int, d.len() as int), p) {
                Ok(vs) => marshal_all(d, p) == Ok::<Seq<InputV>, MarshalError>(out.deep_view() + vs),
                Err(e) => marshal_all(d, p) == Err::<Seq<InputV>, MarshalError>(e),
            },
        decreases n - i,
    {
        let ghost sub = d.subrange(i as int, d.len() as int);
        proof {
            assert(sub[0] == d[i as int]);
            assert(sub.drop_first() =~= d.subrange(i + 1, d.len() as int));
        }
        let (name, t) = match type_map_entry(decl, i) {
            Some(entry) => entry,
            None => {
                return Err(MarshalError::MissingParameter);
            },
        };
        let v = match member(params, name.as_str()) {
            None => {
                return Err(MarshalError::MissingParameter);
            },
            Some(j) => match marshal_input(*t, j) {
                Ok(v) => v,
                Err(e) => {
                    return Err(e);
                },
            },
        };
        let ghost prev = out.deep_view();
        out.push(v);
        proof {
            assert(out.deep_view() =~= prev.push(v.deep_view()));
            if let Ok(vs) = marshal_all(d.subrange(i + 1, d.len() as int), p) {
                assert(prev + (seq![v.deep_view()] + vs) =~= out.deep_view() + vs);
            }
        }
        i += 1;
    }
    proof {
        assert(d.subrange(i as int, d.len() as int) =~= Seq::<(Seq<char>, Type)>::empty());
        assert(out.deep_view() + Seq::<InputV>::empty() =~= out.deep_view());
        lemma_marshal_all_arity(d, p);
    }
    Ok(out)
}

/// Turns the return slots, one per declared return, into JSON members named
/// by the declared returns, in order.
pub fn collect_returns(decl: &TypeMap, outs: &Vec<OutputSlot>) -> (r: Result<
    Vec<(String, Json)>,
    MarshalError,
>)
    requires
        descriptor_entries(*decl).len() == outs@.len(),
        forall|i: int| 0 <= i < outs@.len() ==> read_as_owed(#[trigger] outs@[i].deep_view()),
    ensures
        match collect_spec(descriptor_entries(*decl), outs.deep_view()) {
            Ok(ms) => r is Ok && r->Ok_0.deep_view() == ms,
            Err(e) => r == Err::<Vec<(String, Json)>, MarshalError>(e),
        },
{
    let ghost d = descriptor_entries(*decl);
    let ghost o = outs.deep_view();
    let n = type_map_len(decl);
    let mut out: Vec<(String, Json)> = Vec::new();
    let mut i: usize = 0;
    proof {
        assert(d.subrange(0, d.len() as int) =~= d);
        assert(o.subrange(0, o.len() as int) =~= o);
        assert(out.deep_view() =~= Seq::<(Seq<char>, JsonV)>::empty());
        if let Ok(vs) = collect_spec(d, o) {
            assert(Seq::<(Seq<char>, JsonV)>::empty() + vs =~= vs);
        }
    }
    while i < n
        invariant
            i <= n,
            n == d.len(),
            d.len() == outs@.len(),
            d == descriptor_entries(*decl),
            o == outs.deep_view(),
            forall|k: int| 0 <= k < outs@.len() ==> read_as_owed(#[trigger] outs@[k].deep_view()),
            match collect_spec(d.subrange(i as int, d.len() as int), o.subrange(i as int, o.len() as int)) {
                Ok(vs) => collect_spec(d, o) == Ok::<Seq<(Seq<char>, JsonV)>, MarshalError>(
                    out.deep_view() + vs,
                ),
                Err(e) => collect_spec(d, o) == Err::<Seq<(Seq<char>, JsonV)>, MarshalError>(e),
            },
        decreases n - i,
    {
        proof {
            assert(d.subrange(i as int, d.len() as int).drop_first() =~= d.subrange(i + 1, d.len() as int));
            assert(o.subrange(i as int, o.len() as int).drop_first() =~= o.subrange(i + 1, o.len() as int));
            assert(o[i as int] == outs@[i as int].deep_view());
        }
        let j = match output_to_json(&outs[i]) {
            Ok(j) => j,
            Err(e) => {
                return Err(e);
            },
        };
        let name = match type_map_entry(decl, i) {
            Some(entry) => entry.0,
            None => {
                return Err(MarshalError::MissingParameter);
            },
        };
        let ghost prev = out.deep_view();
        out.push((name.clone(), j));
        proof {
            assert(out.deep_view() =~= prev.push((d[i as int].0, j.deep_view())));
            if let Ok(vs) = collect_spec(d.subrange(i + 1, d.len() as int), o.subrange(i + 1, o.len() as int)) {
                assert(prev + (seq![(d[i as int].0, j.deep_view())] + vs) =~= out.deep_view() + vs);
            }
        }
        i += 1;
    }
    proof {
        assert(d.subrange(i as int, d.len() as int) =~= Seq::<(Seq<char>, Type)>::empty());
        assert(out.deep_view() + Seq::<(Seq<char>, JsonV)>::empty() =~= out.deep_view());
    }
    Ok(out)
}

} // verus!

verus! {

/// What the machine does with a message it got.
#[derive(Debug, PartialEq)]
pub enum Action<C> {
    /// Send this payload back at once.
    Send(MessageInner),
    /// Call the reset callback.
    CallReset(C),
    /// Call the function registered at `index` with these parameters, then
    /// answer message `reply_to`.
    CallFunction { reply_to: i64, index: usize, inputs: Vec<InputValue> },
    /// Read the sensor registered at `index`, then answer message `reply_to`.
    ReadSensor { reply_to: i64, index: usize },
    /// Set the axis registered at `index` to `value`, then answer `reply_to`.
    SetAxis { reply_to: i64, index: usize, value: Number },
    /// Nothing to do.
    Nothing,
}

/// The payload that turns down operation `operation` of message `reply_to`.
pub open spec fn unsupported_v(reply_to: i64, operation: Seq<char>, reason: Seq<char>) -> InnerV {
    InnerV::UnsupportedOperation { reply_to, operation, reason }
}

fn unsupported(reply_to: i64, operation: &String, reason: &str) -> (r: MessageInner)
    ensures
        r.deep_view() == unsupported_v(reply_to, operation@, reason@),
{
    MessageInner::UnsupportedOperation {
        reply_to,
        operation: operation.clone(),
        reason: String::from_str(reason),
    }
}

impl<C: Copy> ConnectedClient<C> {
    /// Decides what to do with a message from the server: answer a heartbeat
    /// request, run the reset callback, or call the function, sensor or axis
    /// the message names, turning down names that are not registered and
    /// parameters that do not fit.
    pub fn dispatch(&self, msg: &Message) -> (r: Action<C>)
        ensures
            match msg.deep_view().inner {
                InnerV::Heartbeat { is_reply } => if is_reply {
                    r is Nothing
                } else {
                    r is Send && r->Send_0.deep_view() == InnerV::Heartbeat { is_reply: true }
                },
                InnerV::Reset { .. } => match self.reset {
                    Some(c) => r == Action::<C>::CallReset(c),
                    None => r is Nothing,
                },
                InnerV::FunctionCall { name, parameters, .. } => {
                    let i = first_named(names_of(self.functions@), name);
                    if i < 0 {
                        r is Send && r->Send_0.deep_view() == unsupported_v(
                            msg.message_id,
                            name,
                            "unrecognized function"@,
                        )
                    } else {
                        match marshal_all(descriptor_entries(self.functions@[i].1.parameters), parameters) {
                            Ok(vs) => r is CallFunction && r->CallFunction_reply_to == msg.message_id
                                && r->CallFunction_index == i && r->CallFunction_inputs.deep_view()
                                == vs,
                            Err(_) => r is Send && r->Send_0.deep_view() == unsupported_v(
                                msg.message_id,
                                name,
                                "invalid parameters"@,
                            ),
                        }
                    }
                },
                InnerV::SensorRead { name, .. } => {
                    let i = first_named(names_of(self.sensors@), name);
                    if i < 0 {
                        r is Send && r->Send_0.deep_view() == unsupported_v(
                            msg.message_id,
                            name,
                            "unrecognized sensor"@,
                        )
                    } else {
                        r is ReadSensor && r->ReadSensor_reply_to == msg.message_id && r->ReadSensor_index
                            == i
                    }
                },
                InnerV::AxisChange { name, value, .. } => {
                    let i = first_named(names_of(self.axes@), name);
                    if i < 0 {
                        r is Send && r->Send_0.deep_view() == unsupported_v(
                            msg.message_id,
                            name,
                            "unrecognized axis"@,
                        )
                    } else {
                        r is SetAxis && r->SetAxis_reply_to == msg.message_id && r->SetAxis_index == i
                            && r->SetAxis_value.deep_view() == value
                    }
                },
                _ => r is Nothing,
            },
            r is CallFunction ==> r->CallFunction_index < self.functions@.len()
                && r->CallFunction_inputs@.len() == descriptor_entries(
                    self.functions@[r->CallFunction_index as int].1.parameters,
                ).len(),
            r is ReadSensor ==> r->ReadSensor_index < self.sensors@.len(),
            r is SetAxis ==> r->SetAxis_index < self.axes@.len(),
    {
        let id = msg.message_id;
        match &msg.inner {
            MessageInner::Heartbeat { is_reply } => if *is_reply {
                Action::Nothing
            } else {
                Action::Send(MessageInner::Heartbeat { is_reply: true })
            },
            MessageInner::Reset { .. } => match self.reset {
                Some(c) => Action::CallReset(c),
                None => Action::Nothing,
            },
            MessageInner::FunctionCall { name, parameters, .. } => {
                proof {
                    lemma_object_view(*parameters);
                }
                match position_by_name(&self.functions, name) {
                    None => Action::Send(unsupported(id, name, "unrecognized function")),
                    Some(i) => match marshal_parameters(&self.functions[i].1.parameters, parameters) {
                        Ok(inputs) => Action::CallFunction { reply_to: id, index: i, inputs },
                        Err(_) => Action::Send(unsupported(id, name, "invalid parameters")),
                    },
                }
            },
            MessageInner::SensorRead { name, .. } => match position_by_name(&self.sensors, name) {
                None => Action::Send(unsupported(id, name, "unrecognized sensor")),
                Some(i) => Action::ReadSensor { reply_to: id, index: i },
            },
            MessageInner::AxisChange { name, value, .. } => match position_by_name(&self.axes, name) {
                None => Action::Send(unsupported(id, name, "unrecognized axis")),
                Some(i) => {
                    Action::SetAxis { reply_to: id, index: i, value: value.copy() }
                },
            },
            _ => Action::Nothing,
        }
    }

    /// The answer to a call of the function at `index`: its returns as
    /// JSON, or a refusal when a return slot cannot be read.
    pub fn function_reply(&self, index: usize, reply_to: i64, outs: &Vec<OutputSlot>) -> (r:
        MessageInner)
        requires
            index < self.functions@.len(),
            outs@.len() == descriptor_entries(self.functions@[index as int].1.returns).len(),
            forall|i: int| 0 <= i < outs@.len() ==> read_as_owed(#[trigger] outs@[i].deep_view()),
        ensures
            r.deep_view() == match collect_spec(
                descriptor_entries(self.functions@[index as int].1.returns),
                outs.deep_view(),
            ) {
                Ok(ms) => InnerV::FunctionReturn { reply_to, returns: ms },
                Err(_) => unsupported_v(reply_to, self.functions@[index as int].0@, "invalid returns"@),
            },
    {
        match collect_returns(&self.functions[index].1.returns, outs) {
            Ok(ms) => MessageInner::FunctionReturn { reply_to, returns: ms },
            Err(_) => unsupported(reply_to, &self.functions[index].0, "invalid returns"),
        }
    }
}

/// The answer to a sensor read: the value the sensor gave.
pub fn sensor_reply(reply_to: i64, value: Number) -> (r: MessageInner)
    ensures
        r.deep_view() == (InnerV::SensorReturn {
            reply_to,
            value: Number::encode_spec(value.deep_view()),
        }),
{
    MessageInner::SensorReturn { reply_to, value: value.encode_json() }
}

/// The answer to an axis change.
pub fn axis_reply(reply_to: i64) -> (r: MessageInner)
    ensures
        r.deep_view() == (InnerV::AxisReturn { reply_to }),
{
    MessageInner::AxisReturn { reply_to }
}

} // verus!

verus! {

/// Names with the wire strings of their types.
pub open spec fn code_view(e: Seq<(Seq<char>, Type)>) -> Seq<(Seq<char>, Seq<char>)> {
    Seq::new(e.len(), |i: int| (e[i].0, type_code(e[i].1)))
}

/// How registered functions are described to the server.
pub open spec fn function_descriptors<C>(fs: Seq<(String, RegisteredFunction<C>)>) -> Seq<
    (Seq<char>, FunctionV),
> {
    Seq::new(
        fs.len(),
        |i: int|
            (
                fs[i].0@,
                FunctionV {
                    parameters: code_view(descriptor_entries(fs[i].1.parameters)),
                    returns: code_view(descriptor_entries(fs[i].1.returns)),
                },
            ),
    )
}

/// How registered sensors are described to the server.
pub open spec fn sensor_descriptors<C>(ss: Seq<(String, RegisteredSensor<C>)>) -> Seq<
    (Seq<char>, SensorV),
> {
    Seq::new(
        ss.len(),
        |i: int|
            (
                ss[i].0@,
                SensorV {
                    output_type: type_code(ss[i].1.output_type),
                    min: ss[i].1.min.deep_view(),
                    max: ss[i].1.max.deep_view(),
                },
            ),
    )
}

/// How registered axes are described to the server.
pub open spec fn axis_descriptors<C>(xs: Seq<(String, RegisteredAxis<C>)>) -> Seq<
    (Seq<char>, AxisV),
> {
    Seq::new(
        xs.len(),
        |i: int|
            (
                xs[i].0@,
                AxisV {
                    input_type: type_code(xs[i].1.input_type),
                    min: xs[i].1.min.deep_view(),
                    max: xs[i].1.max.deep_view(),
                    direction: xs[i].1.direction@,
                    group: xs[i].1.group@,
                },
            ),
    )
}

/// How registered streams are described to the server.
pub open spec fn stream_descriptors(ss: Seq<(String, RegisteredStream)>) -> Seq<(Seq<char>, StreamV)> {
    Seq::new(
        ss.len(),
        |i: int| (ss[i].0@, StreamV { format: ss[i].1.format@, buffer_method: BufferMethod::NoDiscard }),
    )
}

fn codes(v: &TypeMap) -> (r: Vec<(String, String)>)
    ensures
        r.deep_view() == code_view(descriptor_entries(*v)),
{
    let ghost e = code_view(descriptor_entries(*v));
    let n = type_map_len(v);
    let mut out: Vec<(String, String)> = Vec::new();
    let mut i: usize = 0;
    while i < n
        invariant
            i <= n,
            n == descriptor_entries(*v).len(),
            e == code_view(descriptor_entries(*v)),
            out.deep_view() =~= e.take(i as int),
        decreases n - i,
    {
        if let Some((k, t)) = type_map_entry(v, i) {
            let ghost prev = out.deep_view();
            out.push((k.clone(), String::from_str(t.to_str())));
            proof {
                assert(out.deep_view() =~= prev.push(e[i as int]));
                assert(e.take(i + 1) =~= e.take(i as int).push(e[i as int]));
            }
        }
        i += 1;
    }
    proof {
        assert(e.take(n as int) =~= e);
    }
    out
}

impl<C> ClientHandle<C> {
    /// The description that a machine sends when it connects: its name and
    /// what it registered. Fails when already connected or when no name was
    /// set.
    pub fn description(&self) -> (r: Result<MessageInner, ErrorCode>)
        ensures
            match *self {
                ClientHandle::Connected(_) => r == Err::<MessageInner, ErrorCode>(
                    ErrorCode::AlreadyConnected,
                ),
                ClientHandle::Unconnected(c) => match c.name {
                    None => r == Err::<MessageInner, ErrorCode>(ErrorCode::MissingRequiredValue),
                    Some(n) => r is Ok && r->Ok_0.deep_view() == (InnerV::MachineDescription {
                        name: n@,
                        functions: function_descriptors(c.functions@),
                        sensors: sensor_descriptors(c.sensors@),
                        axes: axis_descriptors(c.axes@),
                        streams: stream_descriptors(c.streams@),
                    }),
                },
            },
    {
        let c = match self {
            ClientHandle::Connected(_) => {
                return Err(ErrorCode::AlreadyConnected);
            },
            ClientHandle::Unconnected(c) => c,
        };
        let name = match &c.name {
            None => {
                return Err(ErrorCode::MissingRequiredValue);
            },
            Some(n) => n.clone(),
        };
        let mut functions: Vec<(String, Function)> = Vec::new();
        let mut i: usize = 0;
        while i < c.functions.len()
            invariant
                i <= c.functions@.len(),
                functions.deep_view() =~= function_descriptors(c.functions@).take(i as int),
            decreases c.functions.len() - i,
        {
            let f = &c.functions[i];
            let d = Function { parameters: codes(&f.1.parameters), returns: codes(&f.1.returns) };
            let ghost prev = functions.deep_view();
            functions.push((f.0.clone(), d));
            proof {
                let fd = function_descriptors(c.functions@);
                assert(functions.deep_view() =~= prev.push(fd[i as int]));
                assert(fd.take(i + 1) =~= fd.take(i as int).push(fd[i as int]));
            }
            i += 1;
        }
        let mut sensors: Vec<(String, Sensor)> = Vec::new();
        let mut i: usize = 0;
        while i < c.sensors.len()
            invariant
                i <= c.sensors@.len(),
                sensors.deep_view() =~= sensor_descriptors(c.sensors@).take(i as int),
            decreases c.sensors.len() - i,
        {
            let s = &c.sensors[i];
            let d = Sensor {
                output_type: String::from_str(s.1.output_type.to_str()),
                min: s.1.min.copy(),
                max: s.1.max.copy(),
            };
            let ghost prev = sensors.deep_view();
            sensors.push((s.0.clone(), d));
            proof {
                let sd = sensor_descriptors(c.sensors@);
                assert(sensors.deep_view() =~= prev.push(sd[i as int]));
                assert(sd.take(i + 1) =~= sd.take(i as int).push(sd[i as int]));
            }
            i += 1;
        }
        let mut axes: Vec<(String, Axis)> = Vec::new();
        let mut i: usize = 0;
        while i < c.axes.len()
            invariant
                i <= c.axes@.len(),
                axes.deep_view() =~= axis_descriptors(c.axes@).take(i as int),
            decreases c.axes.len() - i,
        {
            let a = &c.axes[i];
            let d = Axis {
                input_type: String::from_str(a.1.input_type.to_str()),
                min: a.1.min.copy(),
                max: a.1.max.copy(),
                direction: a.1.direction.clone(),
                group: a.1.group.clone(),
            };
            let ghost prev = axes.deep_view();
            axes.push((a.0.clone(), d));
            proof {
                let ad = axis_descriptors(c.axes@);
                assert(axes.deep_view() =~= prev.push(ad[i as int]));
                assert(ad.take(i + 1) =~= ad.take(i as int).push(ad[i as int]));
            }
            i += 1;
        }
        let mut streams: Vec<(String, Stream)> = Vec::new();
        let mut i: usize = 0;
        while i < c.streams.len()
            invariant
                i <= c.streams@.len(),
                streams.deep_view() =~= stream_descriptors(c.streams@).take(i as int),
            decreases c.streams.len() - i,
        {
            let s = &c.streams[i];
            let d = Stream { format: s.1.format.clone(), buffer_method: BufferMethod::NoDiscard };
            let ghost prev = streams.deep_view();
            streams.push((s.0.clone(), d));
            proof {
                let sd = stream_descriptors(c.streams@);
                assert(streams.deep_view() =~= prev.push(sd[i as int]));
                assert(sd.take(i + 1) =~= sd.take(i as int).push(sd[i as int]));
            }
            i += 1;
        }
        proof {
            assert(function_descriptors(c.functions@).take(c.functions@.len() as int)
                =~= function_descriptors(c.functions@));
            assert(sensor_descriptors(c.sensors@).take(c.sensors@.len() as int) =~= sensor_descriptors(
                c.sensors@,
            ));
            assert(axis_descriptors(c.axes@).take(c.axes@.len() as int) =~= axis_descriptors(c.axes@));
            assert(stream_descriptors(c.streams@).take(c.streams@.len() as int) =~= stream_descriptors(
                c.streams@,
            ));
        }
        Ok(MessageInner::MachineDescription { name, functions, sensors, axes, streams })
    }
}

impl<C> ConnectedClient<C> {
    /// The first message on each stream's media connection, one per
    /// registered stream, in order.
    pub fn stream_descriptions(&self) -> (r: Vec<MessageInner>)
        ensures
            r@.len() == self.streams@.len(),
            forall|i: int|
                0 <= i < r@.len() ==> (#[trigger] r@[i]).deep_view() == (InnerV::StreamDescription {
                    machine: self.name@,
                    stream: self.streams@[i].0@,
                }),
    {
        let mut out: Vec<MessageInner> = Vec::new();
        let mut i: usize = 0;
        while i < self.streams.len()
            invariant
                i <= self.streams@.len(),
                out@.len() == i,
                forall|k: int|
                    0 <= k < i ==> (#[trigger] out@[k]).deep_view() == (InnerV::StreamDescription {
                        machine: self.name@,
                        stream: self.streams@[k].0@,
                    }),
            decreases self.streams.len() - i,
        {
            out.push(
                MessageInner::StreamDescription {
                    machine: self.name.clone(),
                    stream: self.streams[i].0.clone(),
                },
            );
            i += 1;
        }
        out
    }
}

} // verus!

verus! {

/// A function with one `bool[]` parameter called with a JSON array of
/// booleans gets exactly those booleans, in order; its one `int` return slot
/// holding `k` is answered as the member `k`.
pub proof fn lemma_bool_array_call(
    param: Seq<char>,
    ret: Seq<char>,
    bools: Seq<bool>,
    k: i32,
)
    requires
        bools.len() < 0x7fff_ffff,
    ensures
        marshal_all(
            seq![(param, Type::PrimArray(PrimType::Bool))],
            seq![(param, JsonV::Array(bools.map_values(|b: bool| JsonV::Bool(b))))],
        ) == Ok::<Seq<InputV>, MarshalError>(
            seq![InputV::Array(bools.map_values(|b: bool| crate::marshall::ScalarV::Bool(b)))],
        ),
        collect_spec(
            seq![(ret, Type::Prim(PrimType::Int))],
            seq![OutputV::Scalar(crate::marshall::RawScalarV::Int(k))],
        ) == Ok::<Seq<(Seq<char>, JsonV)>, MarshalError>(seq![(ret, JsonV::Int(k as i64))]),
{
    let items = bools.map_values(|b: bool| JsonV::Bool(b));
    let d = seq![(param, Type::PrimArray(PrimType::Bool))];
    let p = seq![(param, JsonV::Array(items))];
    assert(lookup(p, param) == Some(JsonV::Array(items)));
    assert(forall|i: int|
        0 <= i < items.len() ==> (#[trigger] crate::marshall::scalar_spec(PrimType::Bool, items[i]))
            is Some);
    assert(Seq::new(items.len(), |i: int| crate::marshall::scalar_spec(PrimType::Bool, items[i])->0)
        =~= bools.map_values(|b: bool| crate::marshall::ScalarV::Bool(b)));
    assert(d.drop_first() =~= Seq::<(Seq<char>, Type)>::empty());
    let v = InputV::Array(bools.map_values(|b: bool| crate::marshall::ScalarV::Bool(b)));
    assert(crate::marshall::input_spec(Type::PrimArray(PrimType::Bool), JsonV::Array(items)) == Ok::<
        InputV,
        MarshalError,
    >(v));
    assert(marshal_one(d[0], p) == Ok::<InputV, MarshalError>(v));
    assert(marshal_all(d.drop_first(), p) == Ok::<Seq<InputV>, MarshalError>(Seq::empty()));
    assert(seq![InputV::Array(bools.map_values(|b: bool| crate::marshall::ScalarV::Bool(b)))]
        + Seq::<InputV>::empty() =~= seq![
        InputV::Array(bools.map_values(|b: bool| crate::marshall::ScalarV::Bool(b))),
    ]);
    let d2 = seq![(ret, Type::Prim(PrimType::Int))];
    let o = seq![OutputV::Scalar(crate::marshall::RawScalarV::Int(k))];
    assert(d2.drop_first() =~= Seq::<(Seq<char>, Type)>::empty());
    assert(o.drop_first() =~= Seq::<OutputV>::empty());
    assert(output_spec(o[0]) == Ok::<JsonV, MarshalError>(JsonV::Int(k as i64)));
    assert(collect_spec(d2.drop_first(), o.drop_first()) == Ok::<Seq<(Seq<char>, JsonV)>, MarshalError>(
        Seq::empty(),
    ));
    assert(seq![(ret, JsonV::Int(k as i64))] + Seq::<(Seq<char>, JsonV)>::empty() =~= seq![
        (ret, JsonV::Int(k as i64)),
    ]);
}

} // verus!
