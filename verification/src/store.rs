//! The per-device data store: four independently addressable domains —
//! coils, discrete inputs, holding registers, input registers — each a
//! sparse map whose unset addresses read as the domain's zero value, and
//! the request handling a server runs against it.

use vstd::prelude::*;
use std::collections::HashMap;
use crate::data::bit_of;
use crate::data::bytes_of_words16;
use crate::data::packed_bools;
use crate::data::words16_of;
use crate::data::DataConverter;
use crate::pdu::be16;
use crate::pdu::be16_bytes;
use crate::pdu::push_slice;
use crate::protocol::ByteOrder;
use crate::protocol::FunctionCode;
use crate::protocol::ModbusRequest;
use crate::protocol::ModbusResponse;
use crate::protocol::RequestView;
use crate::protocol::ResponseView;

verus! {

broadcast use vstd::std_specs::hash::group_hash_axioms;

/// One device's four memory domains. Reading an address that was never
/// written yields `false` or `0`; writing is an unconditional upsert.
pub struct RegisterStore {
    coils: HashMap<u16, bool>,
    discrete_inputs: HashMap<u16, bool>,
    holding_registers: HashMap<u16, u16>,
    input_registers: HashMap<u16, u16>,
}

impl RegisterStore {
    /// The coil value at an address; unset addresses read as `false`.
    pub closed spec fn spec_coil(self, address: u16) -> bool {
        self.coils@.contains_key(address) && self.coils@[address]
    }

    /// The discrete-input value at an address; unset addresses read as
    /// `false`.
    pub closed spec fn spec_discrete_input(self, address: u16) -> bool {
        self.discrete_inputs@.contains_key(address) && self.discrete_inputs@[address]
    }

    /// The holding-register value at an address; unset addresses read as
    /// `0`.
    pub closed spec fn spec_holding_register(self, address: u16) -> u16 {
        if self.holding_registers@.contains_key(address) {
            self.holding_registers@[address]
        } else {
            0
        }
    }

    /// The input-register value at an address; unset addresses read as
    /// `0`.
    pub closed spec fn spec_input_register(self, address: u16) -> u16 {
        if self.input_registers@.contains_key(address) {
            self.input_registers@[address]
        } else {
            0
        }
    }

    /// The `count` coil values starting at `address`.
    pub open spec fn coil_values(self, address: u16, count: u16) -> Seq<bool> {
        Seq::new(count as nat, |i: int| self.spec_coil((address + i) as u16))
    }

    /// The `count` discrete-input values starting at `address`.
    pub open spec fn discrete_input_values(self, address: u16, count: u16) -> Seq<bool> {
        Seq::new(count as nat, |i: int| self.spec_discrete_input((address + i) as u16))
    }

    /// The `count` holding-register values starting at `address`.
    pub open spec fn holding_register_values(self, address: u16, count: u16) -> Seq<u16> {
        Seq::new(count as nat, |i: int| self.spec_holding_register((address + i) as u16))
    }

    /// The `count` input-register values starting at `address`.
    pub open spec fn input_register_values(self, address: u16, count: u16) -> Seq<u16> {
        Seq::new(count as nat, |i: int| self.spec_input_register((address + i) as u16))
    }

    /// Creates a store with every address at its zero value.
    pub fn new() -> (r: Self)
        ensures
            forall|a: u16| !(#[trigger] r.spec_coil(a)),
            forall|a: u16| !(#[trigger] r.spec_discrete_input(a)),
            forall|a: u16| #[trigger] r.spec_holding_register(a) == 0,
            forall|a: u16| #[trigger] r.spec_input_register(a) == 0,
    {
        RegisterStore {
            coils: HashMap::new(),
            discrete_inputs: HashMap::new(),
            holding_registers: HashMap::new(),
            input_registers: HashMap::new(),
        }
    }

    /// Reads one coil.
    pub fn get_coil(&self, address: u16) -> (r: bool)
        ensures
            r == self.spec_coil(address),
    {
        match self.coils.get(&address) {
            Some(v) => *v,
            None => false,
        }
    }

    /// Reads one discrete input.
    pub fn get_discrete_input(&self, address: u16) -> (r: bool)
        ensures
            r == self.spec_discrete_input(address),
    {
        match self.discrete_inputs.get(&address) {
            Some(v) => *v,
            None => false,
        }
    }

    /// Reads one holding register.
    pub fn get_holding_register(&self, address: u16) -> (r: u16)
        ensures
            r == self.spec_holding_register(address),
    {
        match self.holding_registers.get(&address) {
            Some(v) => *v,
            None => 0,
        }
    }

    /// Reads one input register.
    pub fn get_input_register(&self, address: u16) -> (r: u16)
        ensures
            r == self.spec_input_register(address),
    {
        match self.input_registers.get(&address) {
            Some(v) => *v,
            None => 0,
        }
    }

    /// Writes one coil.
    pub fn set_coil(&mut self, address: u16, value: bool)
        ensures
            final(self).spec_coil(address) == value,
            forall|a: u16|
                a != address ==> #[trigger] final(self).spec_coil(a) == old(self).spec_coil(a),
            discrete_inputs_match(*old(self), *final(self)),
            holding_registers_match(*old(self), *final(self)),
            input_registers_match(*old(self), *final(self)),
    {
        self.coils.insert(address, value);
    }

    /// Writes one discrete input.
    pub fn set_discrete_input(&mut self, address: u16, value: bool)
        ensures
            final(self).spec_discrete_input(address) == value,
            forall|a: u16|
                a != address ==> #[trigger] final(self).spec_discrete_input(a) == old(
                    self,
                ).spec_discrete_input(a),
            coils_match(*old(self), *final(self)),
            holding_registers_match(*old(self), *final(self)),
            input_registers_match(*old(self), *final(self)),
    {
        self.discrete_inputs.insert(address, value);
    }

    /// Writes one holding register.
    pub fn set_holding_register(&mut self, address: u16, value: u16)
        ensures
            final(self).spec_holding_register(address) == value,
            forall|a: u16|
                a != address ==> #[trigger] final(self).spec_holding_register(a) == old(
                    self,
                ).spec_holding_register(a),
            coils_match(*old(self), *final(self)),
            discrete_inputs_match(*old(self), *final(self)),
            input_registers_match(*old(self), *final(self)),
    {
        self.holding_registers.insert(address, value);
    }

    /// Writes one input register.
    pub fn set_input_register(&mut self, address: u16, value: u16)
        ensures
            final(self).spec_input_register(address) == value,
            forall|a: u16|
                a != address ==> #[trigger] final(self).spec_input_register(a) == old(
                    self,
                ).spec_input_register(a),
            coils_match(*old(self), *final(self)),
            discrete_inputs_match(*old(self), *final(self)),
            holding_registers_match(*old(self), *final(self)),
    {
        self.input_registers.insert(address, value);
    }
}

/// Whether two stores hold the same coil values everywhere.
pub open spec fn coils_match(a: RegisterStore, b: RegisterStore) -> bool {
    forall|x: u16| #[trigger] a.spec_coil(x) == b.spec_coil(x)
}

/// Whether two stores hold the same discrete-input values everywhere.
pub open spec fn discrete_inputs_match(a: RegisterStore, b: RegisterStore) -> bool {
    forall|x: u16| #[trigger] a.spec_discrete_input(x) == b.spec_discrete_input(x)
}

/// Whether two stores hold the same holding-register values everywhere.
pub open spec fn holding_registers_match(a: RegisterStore, b: RegisterStore) -> bool {
    forall|x: u16| #[trigger] a.spec_holding_register(x) == b.spec_holding_register(x)
}

/// Whether two stores hold the same input-register values everywhere.
pub open spec fn input_registers_match(a: RegisterStore, b: RegisterStore) -> bool {
    forall|x: u16| #[trigger] a.spec_input_register(x) == b.spec_input_register(x)
}

/// Whether two stores hold the same values everywhere.
pub open spec fn stores_match(a: RegisterStore, b: RegisterStore) -> bool {
    coils_match(a, b) && discrete_inputs_match(a, b) && holding_registers_match(a, b)
        && input_registers_match(a, b)
}

/// The requests a store can serve without leaving the wire format's
/// bounds: read ranges must stay inside the 16-bit address space and
/// small enough for the one-byte count of the response; write payloads
/// must be present, well sized, and stay inside the address space.
pub open spec fn handleable(req: RequestView) -> bool {
    match req.function_code {
        FunctionCode::ReadCoils | FunctionCode::ReadDiscreteInputs => req.count <= 2040
            && req.address + req.count <= 0x10000,
        FunctionCode::ReadHoldingRegisters | FunctionCode::ReadInputRegisters => req.count <= 127
            && req.address + req.count <= 0x10000,
        FunctionCode::WriteSingleCoil => true,
        FunctionCode::WriteSingleRegister => match req.data {
            Some(d) => d.len() >= 2,
            None => false,
        },
        FunctionCode::WriteMultipleCoils => match req.data {
            Some(d) => req.address + written_bits(req.count, d.len() as int) <= 0x10000,
            None => false,
        },
        FunctionCode::WriteMultipleRegisters => match req.data {
            Some(d) => d.len() % 2 == 0 && req.address + d.len() / 2 <= 0x10000,
            None => false,
        },
    }
}

/// How many coil values a multi-coil write carries: its declared count,
/// capped by the bits its payload actually holds.
pub open spec fn written_bits(count: u16, data_len: int) -> int {
    if count <= 8 * data_len {
        count as int
    } else {
        8 * data_len
    }
}

/// The response to a bit-domain read: a byte count, then the packed
/// values.
pub open spec fn bits_read_response(req: RequestView, values: Seq<bool>) -> ResponseView {
    ResponseView {
        slave_id: req.slave_id,
        function_code: req.function_code,
        data: seq![(((values.len() + 7) as int) / 8) as u8] + packed_bools(values),
        is_exception: false,
        exception_code: None,
    }
}

/// The response to a register-domain read: a byte count, then the values
/// big endian.
pub open spec fn words_read_response(req: RequestView, values: Seq<u16>) -> ResponseView {
    ResponseView {
        slave_id: req.slave_id,
        function_code: req.function_code,
        data: seq![((values.len() * 2) as int) as u8] + bytes_of_words16(ByteOrder::ABCD, values),
        is_exception: false,
        exception_code: None,
    }
}

/// The response to a write: the address and count echoed big endian.
pub open spec fn echo_response(req: RequestView) -> ResponseView {
    ResponseView {
        slave_id: req.slave_id,
        function_code: req.function_code,
        data: be16_bytes(req.address) + be16_bytes(req.count),
        is_exception: false,
        exception_code: None,
    }
}

/// The response to a single-register write: the address and the written
/// value echoed.
pub open spec fn single_register_response(req: RequestView) -> ResponseView {
    let d = req.data->Some_0;
    ResponseView {
        slave_id: req.slave_id,
        function_code: req.function_code,
        data: be16_bytes(req.address) + seq![d[0], d[1]],
        is_exception: false,
        exception_code: None,
    }
}

/// The response a store gives to a handleable request.
pub open spec fn spec_response(s: RegisterStore, req: RequestView) -> ResponseView {
    match req.function_code {
        FunctionCode::ReadCoils => bits_read_response(req, s.coil_values(req.address, req.count)),
        FunctionCode::ReadDiscreteInputs => bits_read_response(
            req,
            s.discrete_input_values(req.address, req.count),
        ),
        FunctionCode::ReadHoldingRegisters => words_read_response(
            req,
            s.holding_register_values(req.address, req.count),
        ),
        FunctionCode::ReadInputRegisters => words_read_response(
            req,
            s.input_register_values(req.address, req.count),
        ),
        FunctionCode::WriteSingleCoil => echo_response(req),
        FunctionCode::WriteSingleRegister => single_register_response(req),
        FunctionCode::WriteMultipleCoils => echo_response(req),
        FunctionCode::WriteMultipleRegisters => echo_response(req),
    }
}

/// How a handleable request transforms a store: reads leave it alone,
/// writes overwrite exactly the addressed range.
pub open spec fn spec_updated(pre: RegisterStore, post: RegisterStore, req: RequestView) -> bool {
    match req.function_code {
        FunctionCode::ReadCoils
        | FunctionCode::ReadDiscreteInputs
        | FunctionCode::ReadHoldingRegisters
        | FunctionCode::ReadInputRegisters => stores_match(pre, post),
        FunctionCode::WriteSingleCoil => {
            &&& post.spec_coil(req.address) == (req.count > 0)
            &&& forall|a: u16|
                a != req.address ==> #[trigger] post.spec_coil(a) == pre.spec_coil(a)
            &&& discrete_inputs_match(pre, post)
            &&& holding_registers_match(pre, post)
            &&& input_registers_match(pre, post)
        },
        FunctionCode::WriteSingleRegister => {
            let d = req.data->Some_0;
            &&& post.spec_holding_register(req.address) == be16(d[0], d[1])
            &&& forall|a: u16|
                a != req.address ==> #[trigger] post.spec_holding_register(a)
                    == pre.spec_holding_register(a)
            &&& coils_match(pre, post)
            &&& discrete_inputs_match(pre, post)
            &&& input_registers_match(pre, post)
        },
        FunctionCode::WriteMultipleCoils => {
            let d = req.data->Some_0;
            let n = written_bits(req.count, d.len() as int);
            &&& forall|a: u16|
                #[trigger] post.spec_coil(a) == if req.address <= a < req.address + n {
                    bit_of(d[(a - req.address) / 8], ((a - req.address) % 8) as u8)
                } else {
                    pre.spec_coil(a)
                }
            &&& discrete_inputs_match(pre, post)
            &&& holding_registers_match(pre, post)
            &&& input_registers_match(pre, post)
        },
        FunctionCode::WriteMultipleRegisters => {
            let d = req.data->Some_0;
            let n = d.len() / 2;
            &&& forall|a: u16|
                #[trigger] post.spec_holding_register(a) == if req.address <= a < req.address
                    + n {
                    words16_of(ByteOrder::ABCD, d)[a - req.address]
                } else {
                    pre.spec_holding_register(a)
                }
            &&& coils_match(pre, post)
            &&& discrete_inputs_match(pre, post)
            &&& input_registers_match(pre, post)
        },
    }
}

impl RegisterStore {
    /// Serves a read of the coil domain.
    pub fn handle_read_coils(&self, request: &ModbusRequest) -> (r: ModbusResponse)
        requires
            request@.function_code is ReadCoils,
            handleable(request@),
        ensures
            r@ == spec_response(*self, request@),
    {
        let values = self.collect_bits(request.address, request.count, false);
        proof {
            assert(values@ =~= self.coil_values(request@.address, request@.count));
        }
        Self::bits_response(request, &values)
    }

    /// Serves a read of the discrete-input domain.
    pub fn handle_read_discrete_inputs(&self, request: &ModbusRequest) -> (r: ModbusResponse)
        requires
            request@.function_code is ReadDiscreteInputs,
            handleable(request@),
        ensures
            r@ == spec_response(*self, request@),
    {
        let values = self.collect_bits(request.address, request.count, true);
        proof {
            assert(values@ =~= self.discrete_input_values(request@.address, request@.count));
        }
        Self::bits_response(request, &values)
    }

    /// Serves a read of the holding-register domain.
    pub fn handle_read_holding_registers(&self, request: &ModbusRequest) -> (r: ModbusResponse)
        requires
            request@.function_code is ReadHoldingRegisters,
            handleable(request@),
        ensures
            r@ == spec_response(*self, request@),
    {
        let values = self.collect_words(request.address, request.count, false);
        proof {
            assert(values@ =~= self.holding_register_values(request@.address, request@.count));
        }
        Self::words_response(request, &values)
    }

    /// Serves a read of the input-register domain.
    pub fn handle_read_input_registers(&self, request: &ModbusRequest) -> (r: ModbusResponse)
        requires
            request@.function_code is ReadInputRegisters,
            handleable(request@),
        ensures
            r@ == spec_response(*self, request@),
    {
        let values = self.collect_words(request.address, request.count, true);
        proof {
            assert(values@ =~= self.input_register_values(request@.address, request@.count));
        }
        Self::words_response(request, &values)
    }

    /// Serves a single-coil write: any nonzero count switches the coil
    /// on.
    pub fn handle_write_single_coil(&mut self, request: &ModbusRequest) -> (r: ModbusResponse)
        requires
            request@.function_code is WriteSingleCoil,
        ensures
            r@ == spec_response(*old(self), request@),
            spec_updated(*old(self), *final(self), request@),
    {
        self.set_coil(request.address, request.count > 0);
        Self::echo(request)
    }

    /// Serves a single-register write.
    pub fn handle_write_single_register(&mut self, request: &ModbusRequest) -> (r:
        ModbusResponse)
        requires
            request@.function_code is WriteSingleRegister,
            handleable(request@),
        ensures
            r@ == spec_response(*old(self), request@),
            spec_updated(*old(self), *final(self), request@),
    {
        let d = match &request.data {
            Some(d) => d,
            None => {
                return vstd::pervasive::unreached();
            },
        };
        let value = (d[0] as u16) * 0x100 + (d[1] as u16);
        self.set_holding_register(request.address, value);
        let mut data: Vec<u8> = Vec::new();
        crate::pdu::push_u16_be(&mut data, request.address);
        data.push(d[0]);
        data.push(d[1]);
        let r = ModbusResponse {
            slave_id: request.slave_id,
            function_code: request.function_code,
            data,
            is_exception: false,
            exception_code: None,
        };
        proof {
            assert(r@ =~= single_register_response(request@));
        }
        r
    }

    /// Serves a multi-coil write: unpacks the payload bits and overwrites
    /// the addressed range.
    pub fn handle_write_multiple_coils(&mut self, request: &ModbusRequest) -> (r: ModbusResponse)
        requires
            request@.function_code is WriteMultipleCoils,
            handleable(request@),
        ensures
            r@ == spec_response(*old(self), request@),
            spec_updated(*old(self), *final(self), request@),
    {
        let d = match &request.data {
            Some(d) => d,
            None => {
                return vstd::pervasive::unreached();
            },
        };
        let bools = DataConverter::bytes_to_bool_array(d.as_slice(), request.count as usize);
        let ghost n = written_bits(request@.count, d@.len() as int);
        proof {
            assert(bools@.len() == n);
        }
        let mut i: usize = 0;
        while i < bools.len()
            invariant
                bools@.len() == n,
                n == written_bits(request@.count, request@.data->Some_0.len() as int),
                forall|j: int|
                    0 <= j < n ==> bools@[j] == bit_of(
                        request@.data->Some_0[j / 8],
                        (j % 8) as u8,
                    ),
                request@.address + n <= 0x10000,
                i <= n,
                forall|a: u16|
                    #[trigger] self.spec_coil(a) == if request@.address <= a < request@.address
                        + i {
                        bools@[a - request@.address]
                    } else {
                        old(self).spec_coil(a)
                    },
                discrete_inputs_match(*old(self), *self),
                holding_registers_match(*old(self), *self),
                input_registers_match(*old(self), *self),
            decreases n - i,
        {
            self.set_coil(request.address + (i as u16), bools[i]);
            i += 1;
        }
        Self::echo(request)
    }

    /// Serves a multi-register write: reads the payload as big-endian
    /// words and overwrites the addressed range.
    pub fn handle_write_multiple_registers(&mut self, request: &ModbusRequest) -> (r:
        ModbusResponse)
        requires
            request@.function_code is WriteMultipleRegisters,
            handleable(request@),
        ensures
            r@ == spec_response(*old(self), request@),
            spec_updated(*old(self), *final(self), request@),
    {
        let d = match &request.data {
            Some(d) => d,
            None => {
                return vstd::pervasive::unreached();
            },
        };
        let values = match DataConverter::bytes_to_u16_array(d.as_slice(), ByteOrder::ABCD) {
            Ok(v) => v,
            Err(_) => {
                return vstd::pervasive::unreached();
            },
        };
        let ghost n = request@.data->Some_0.len() / 2;
        proof {
            assert(values@.len() == n);
        }
        let mut i: usize = 0;
        while i < values.len()
            invariant
                values@.len() == n,
                n == request@.data->Some_0.len() / 2,
                values@ == words16_of(ByteOrder::ABCD, request@.data->Some_0),
                request@.address + n <= 0x10000,
                i <= n,
                forall|a: u16|
                    #[trigger] self.spec_holding_register(a) == if request@.address <= a
                        < request@.address + i {
                        values@[a - request@.address]
                    } else {
                        old(self).spec_holding_register(a)
                    },
                coils_match(*old(self), *self),
                discrete_inputs_match(*old(self), *self),
                input_registers_match(*old(self), *self),
            decreases n - i,
        {
            self.set_holding_register(request.address + (i as u16), values[i]);
            i += 1;
        }
        Self::echo(request)
    }

    /// Serves any handleable request, dispatching on its operation.
    pub fn handle_request(&mut self, request: &ModbusRequest) -> (r: ModbusResponse)
        requires
            handleable(request@),
        ensures
            r@ == spec_response(*old(self), request@),
            spec_updated(*old(self), *final(self), request@),
    {
        match request.function_code {
            FunctionCode::ReadCoils => self.handle_read_coils(request),
            FunctionCode::ReadDiscreteInputs => self.handle_read_discrete_inputs(request),
            FunctionCode::ReadHoldingRegisters => self.handle_read_holding_registers(request),
            FunctionCode::ReadInputRegisters => self.handle_read_input_registers(request),
            FunctionCode::WriteSingleCoil => self.handle_write_single_coil(request),
            FunctionCode::WriteSingleRegister => self.handle_write_single_register(request),
            FunctionCode::WriteMultipleCoils => self.handle_write_multiple_coils(request),
            FunctionCode::WriteMultipleRegisters => self.handle_write_multiple_registers(request),
        }
    }

    /// Collects a range from one of the bit domains.
    fn collect_bits(&self, address: u16, count: u16, discrete: bool) -> (r: Vec<bool>)
        requires
            address + count <= 0x10000,
        ensures
            r@ == if discrete {
                self.discrete_input_values(address, count)
            } else {
                self.coil_values(address, count)
            },
    {
        let mut values: Vec<bool> = Vec::new();
        let mut i: u16 = 0;
        while i < count
            invariant
                address + count <= 0x10000,
                i <= count,
                values@.len() == i,
                forall|j: int|
                    0 <= j < i ==> values@[j] == if discrete {
                        self.spec_discrete_input((address + j) as u16)
                    } else {
                        self.spec_coil((address + j) as u16)
                    },
            decreases count - i,
        {
            let v = if discrete {
                self.get_discrete_input(address + i)
            } else {
                self.get_coil(address + i)
            };
            values.push(v);
            i += 1;
        }
        proof {
            if discrete {
                assert(values@ =~= self.discrete_input_values(address, count));
            } else {
                assert(values@ =~= self.coil_values(address, count));
            }
        }
        values
    }

    /// Collects a range from one of the register domains.
    fn collect_words(&self, address: u16, count: u16, input: bool) -> (r: Vec<u16>)
        requires
            address + count <= 0x10000,
        ensures
            r@ == if input {
                self.input_register_values(address, count)
            } else {
                self.holding_register_values(address, count)
            },
    {
        let mut values: Vec<u16> = Vec::new();
        let mut i: u16 = 0;
        while i < count
            invariant
                address + count <= 0x10000,
                i <= count,
                values@.len() == i,
                forall|j: int|
                    0 <= j < i ==> values@[j] == if input {
                        self.spec_input_register((address + j) as u16)
                    } else {
                        self.spec_holding_register((address + j) as u16)
                    },
            decreases count - i,
        {
            let v = if input {
                self.get_input_register(address + i)
            } else {
                self.get_holding_register(address + i)
            };
            values.push(v);
            i += 1;
        }
        proof {
            if input {
                assert(values@ =~= self.input_register_values(address, count));
            } else {
                assert(values@ =~= self.holding_register_values(address, count));
            }
        }
        values
    }

    /// Packs bit values into a read response.
    fn bits_response(request: &ModbusRequest, values: &Vec<bool>) -> (r: ModbusResponse)
        requires
            values@.len() <= 2040,
        ensures
            r@ == bits_read_response(request@, values@),
    {
        let packed = DataConverter::bool_array_to_bytes(values.as_slice());
        let byte_count = ((values.len() + 7) / 8) as u8;
        let mut data: Vec<u8> = Vec::new();
        data.push(byte_count);
        push_slice(&mut data, packed.as_slice());
        let r = ModbusResponse {
            slave_id: request.slave_id,
            function_code: request.function_code,
            data,
            is_exception: false,
            exception_code: None,
        };
        proof {
            assert(r@.data =~= seq![(((values@.len() + 7) as int) / 8) as u8] + packed_bools(
                values@,
            ));
        }
        r
    }

    /// Writes register values big endian into a read response.
    fn words_response(request: &ModbusRequest, values: &Vec<u16>) -> (r: ModbusResponse)
        requires
            values@.len() <= 127,
        ensures
            r@ == words_read_response(request@, values@),
    {
        let bytes = DataConverter::u16_array_to_bytes(values.as_slice(), ByteOrder::ABCD);
        let byte_count = (values.len() * 2) as u8;
        let mut data: Vec<u8> = Vec::new();
        data.push(byte_count);
        push_slice(&mut data, bytes.as_slice());
        let r = ModbusResponse {
            slave_id: request.slave_id,
            function_code: request.function_code,
            data,
            is_exception: false,
            exception_code: None,
        };
        proof {
            assert(r@.data =~= seq![((values@.len() * 2) as int) as u8] + bytes_of_words16(
                ByteOrder::ABCD,
                values@,
            ));
        }
        r
    }

    /// Echoes a write request's address and count.
    fn echo(request: &ModbusRequest) -> (r: ModbusResponse)
        ensures
            r@ == echo_response(request@),
    {
        let mut data: Vec<u8> = Vec::new();
        crate::pdu::push_u16_be(&mut data, request.address);
        crate::pdu::push_u16_be(&mut data, request.count);
        let r = ModbusResponse {
            slave_id: request.slave_id,
            function_code: request.function_code,
            data,
            is_exception: false,
            exception_code: None,
        };
        proof {
            assert(r@ =~= echo_response(request@));
        }
        r
    }
}

} // verus!
