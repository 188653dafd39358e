//! Collaboration primitives: documents edited by operations, a text
//! document, conflict resolution and fractional indices.

use num_bigint::BigInt;
use vstd::prelude::*;
use vstd::string::StringSliceAdditionalSpecFns;
use vstd::string::StringExecFns;
use vstd::utf8::{decode_utf8, is_char_boundary, valid_utf8};

verus! {

/// Conflict resolution errors
#[derive(Debug)]
pub enum ConflictError {
    OperationConflict(String),
    VersionMismatch { expected: u64, actual: u64 },
    InvalidOperation(String),
}

/// A document that can be edited by operations.
pub trait Document {
    type Operation;

    /// The operation can be applied to the document without breaking it
    /// (an operation that is refused counts as applicable).
    spec fn applicable(&self, operation: Self::Operation) -> bool;

    /// Apply an operation to the document
    fn apply(&mut self, operation: &Self::Operation) -> Result<(), ConflictError>
        requires
            old(self).applicable(*operation);

    /// Get the document's version
    fn version(&self) -> u64;

    /// Set the document's version
    fn set_version(&mut self, version: u64);
}

/// The kind of a text operation.
#[derive(Debug, Clone)]
pub enum TextOperationType {
    Insert(String),
    Delete(usize),
}

/// A text operation at a byte position.
#[derive(Debug, Clone)]
pub struct TextOperation {
    pub position: usize,
    pub operation_type: TextOperationType,
}

fn copy_operation(op: &TextOperation) -> (r: TextOperation)
    ensures
        r == *op,
{
    let operation_type = match &op.operation_type {
        TextOperationType::Insert(s) => TextOperationType::Insert(s.clone()),
        TextOperationType::Delete(n) => TextOperationType::Delete(*n),
    };
    TextOperation { position: op.position, operation_type }
}

/// Collaborative text document implementation
#[derive(Debug, Clone)]
pub struct CollaborativeText {
    pub content: String,
    pub version: u64,
    pub operations: Vec<TextOperation>,
}

/// Whether applying `op` to text with these bytes is refused, and why.
pub open spec fn text_op_problem(bytes: Seq<u8>, op: TextOperation) -> Option<Seq<char>> {
    match op.operation_type {
        TextOperationType::Insert(_) => if op.position > bytes.len() { Some("Position out of bounds"@) } else { None },
        TextOperationType::Delete(n) => if op.position + n > bytes.len() { Some("Delete range out of bounds"@) } else { None },
    }
}

/// Where a deletion of `n` bytes at `position` stops taking bytes out: the
/// last byte of its range stays, so `n - 1` bytes go (none for 0 or 1).
pub open spec fn delete_end(position: int, n: int) -> int {
    if n == 0 { position } else { position + n - 1 }
}

/// Whether the byte positions that an accepted operation cuts at lie on
/// character boundaries (the operation cannot split a character).
pub open spec fn text_op_on_boundaries(bytes: Seq<u8>, op: TextOperation) -> bool {
    match op.operation_type {
        TextOperationType::Insert(_) => is_char_boundary(bytes, op.position as int),
        TextOperationType::Delete(n) => is_char_boundary(bytes, op.position as int)
            && is_char_boundary(bytes, delete_end(op.position as int, n as int)),
    }
}

/// The characters after the first one (none of an empty sequence).
pub open spec fn after_first(cs: Seq<char>) -> Seq<char> {
    if cs.len() == 0 { cs } else { cs.drop_first() }
}

/// The text after an accepted operation: an insertion puts its text in
/// place of the character at the position (after the last character when
/// the position is the end); a deletion takes out the bytes of its range
/// but the last one.
pub open spec fn text_after(bytes: Seq<u8>, op: TextOperation) -> Seq<char> {
    match op.operation_type {
        TextOperationType::Insert(s) => decode_utf8(bytes.subrange(0, op.position as int)) + s@
            + after_first(decode_utf8(bytes.subrange(op.position as int, bytes.len() as int))),
        TextOperationType::Delete(n) => decode_utf8(bytes.subrange(0, op.position as int))
            + decode_utf8(bytes.subrange(delete_end(op.position as int, n as int), bytes.len() as int)),
    }
}

/// The characters of a string, by way of its bytes.
proof fn lemma_chars_of_bytes(s: &str)
    ensures
        valid_utf8(s.spec_bytes()),
        s@ == decode_utf8(s.spec_bytes()),
{
    broadcast use vstd::utf8::encode_utf8_valid_utf8, vstd::utf8::encode_utf8_decode_utf8;
}

/// The bytes of a character sequence.
pub open spec fn utf8_of(s: Seq<char>) -> Seq<u8> {
    vstd::utf8::encode_utf8(s)
}

/// The text after its first character (empty text stays empty).
fn drop_first_char(t: &str) -> (r: &str)
    requires
        t.spec_bytes().len() <= usize::MAX,
    ensures
        r@ == after_first(t@),
{
    let n = t.len();
    proof { lemma_chars_of_bytes(t); }
    if n == 0 {
        proof {
            assert(t.spec_bytes().len() == 0);
            assert(decode_utf8(t.spec_bytes()).len() == 0);
        }
        return t;
    }
    let bytes = t.as_bytes();
    let lead = bytes[0];
    let width: usize = if lead <= 0x7f {
        1
    } else if 0xc0 <= lead && lead <= 0xdf {
        2
    } else if 0xe0 <= lead && lead <= 0xef {
        3
    } else {
        4
    };
    proof {
        lemma_chars_of_bytes(t);
        let tb = t.spec_bytes();
        assert(bytes@ == tb);
        assert(vstd::utf8::valid_first_scalar(tb));
        assert(width as int == vstd::utf8::length_of_first_scalar(tb));
        reveal_with_fuel(is_char_boundary, 2);
        assert(is_char_boundary(tb, width as int));
    }
    let (_first, rest) = t.split_at(width);
    proof {
        lemma_chars_of_bytes(rest);
        let tb = t.spec_bytes();
        assert(rest.spec_bytes() == vstd::utf8::pop_first_scalar(tb));
        assert(decode_utf8(tb) == seq![vstd::utf8::decode_first_scalar(tb) as char] + decode_utf8(vstd::utf8::pop_first_scalar(tb)));
        assert(rest@ =~= t@.drop_first());
    }
    rest
}

impl Document for CollaborativeText {
    type Operation = TextOperation;

    /// The operation's range fits the machine, and an operation that is
    /// accepted cuts on character boundaries and leaves room for another
    /// version.
    open spec fn applicable(&self, operation: TextOperation) -> bool {
        let bytes = utf8_of(self.content@);
        &&& bytes.len() <= usize::MAX
        &&& operation.operation_type matches TextOperationType::Delete(n) ==> operation.position + n <= usize::MAX
        &&& (text_op_problem(bytes, operation) is Some || (text_op_on_boundaries(bytes, operation) && self.version < u64::MAX))
    }

    /// Applies an operation at a byte position: refused when the position
    /// or range runs past the end; otherwise an insertion puts its text in
    /// place of the character at the position, a deletion takes out the
    /// bytes of its range but the last, the operation is recorded and the
    /// version moves on by one.
    fn apply(&mut self, operation: &TextOperation) -> (r: Result<(), ConflictError>)
        ensures
            text_op_problem(utf8_of(old(self).content@), *operation) is Some ==> *final(self) == *old(self),
            text_op_problem(utf8_of(old(self).content@), *operation) matches Some(m) ==>
                (r matches Err(ConflictError::InvalidOperation(x)) && x@ == m),
            text_op_problem(utf8_of(old(self).content@), *operation) is None ==> {
                &&& r is Ok
                &&& final(self).content@ == text_after(utf8_of(old(self).content@), *operation)
                &&& final(self).version == old(self).version + 1
                &&& final(self).operations@ == old(self).operations@.push(*operation)
            },
    {
        let ghost bytes = utf8_of(self.content@);
        let text: &str = self.content.as_str();
        let len = text.len();
        proof {
            lemma_chars_of_bytes(text);
            assert(text.spec_bytes() == bytes);
            assert(len == bytes.len());
        }
        let new_content = match &operation.operation_type {
            TextOperationType::Insert(inserted) => {
                if operation.position > len {
                    return Err(ConflictError::InvalidOperation("Position out of bounds".to_string()));
                }
                let (a, b) = text.split_at(operation.position);
                proof {
                    lemma_chars_of_bytes(a);
                    lemma_chars_of_bytes(b);
                    assert(text.spec_bytes() == bytes);
                    assert(a@ == decode_utf8(bytes.subrange(0, operation.position as int)));
                    assert(b@ == decode_utf8(bytes.subrange(operation.position as int, bytes.len() as int)));
                }
                let rest = drop_first_char(b);
                let mut c = a.to_string();
                c.append(inserted.as_str());
                c.append(rest);
                proof {
                    assert(c@ == a@ + inserted@ + rest@);
                }
                c
            },
            TextOperationType::Delete(length) => {
                if operation.position + *length > len {
                    return Err(ConflictError::InvalidOperation("Delete range out of bounds".to_string()));
                }
                let end = if *length == 0 { operation.position } else { operation.position + *length - 1 };
                let (ab, b) = text.split_at(end);
                proof {
                    broadcast use vstd::utf8::valid_utf8_split, vstd::utf8::is_char_boundary_start_end_of_seq,
                        vstd::utf8::is_char_boundary_iff_not_is_continuation_byte;
                    let abb = ab.spec_bytes();
                    assert(abb == bytes.subrange(0, end as int));
                    vstd::utf8::valid_utf8_split(bytes, end as int);
                    assert(valid_utf8(abb));
                    if operation.position < end {
                        assert(abb[operation.position as int] == bytes[operation.position as int]);
                        vstd::utf8::is_char_boundary_iff_not_is_continuation_byte(bytes, operation.position as int);
                        vstd::utf8::is_char_boundary_iff_not_is_continuation_byte(abb, operation.position as int);
                        assert(is_char_boundary(abb, operation.position as int));
                    } else {
                        assert(is_char_boundary(abb, abb.len() as int));
                    }
                }
                let (a, _gone) = ab.split_at(operation.position);
                proof {
                    lemma_chars_of_bytes(a);
                    lemma_chars_of_bytes(b);
                    assert(a.spec_bytes() =~= bytes.subrange(0, operation.position as int));
                }
                let mut c = a.to_string();
                c.append(b);
                proof {
                    assert(text.spec_bytes() == bytes);
                    assert(a@ == decode_utf8(bytes.subrange(0, operation.position as int)));
                    assert(b@ == decode_utf8(bytes.subrange(end as int, bytes.len() as int)));
                    assert(c@ == a@ + b@);
                }
                c
            },
        };
        self.content = new_content;
        self.operations.push(copy_operation(operation));
        self.version = self.version + 1;
        Ok(())
    }

    fn version(&self) -> (v: u64)
        ensures
            v == self.version,
    {
        self.version
    }

    fn set_version(&mut self, version: u64)
        ensures
            final(self).version == version,
            final(self).content == old(self).content,
            final(self).operations == old(self).operations,
    {
        self.version = version;
    }
}

/// Conflict resolution strategy; implemented by the application.
pub trait ConflictResolver<T: Document> {
    fn resolve(&self, local: &T, remote: &T, operation: &T::Operation) -> Result<T, ConflictError>;
}

/// Conflict resolver that keeps the local document.
pub struct LastWriteWinsResolver;

impl ConflictResolver<CollaborativeText> for LastWriteWinsResolver {
    fn resolve(&self, local: &CollaborativeText, remote: &CollaborativeText, operation: &TextOperation) -> (r: Result<CollaborativeText, ConflictError>)
        ensures
            r matches Ok(d) && d.content@ == local.content@ && d.version == local.version
                && d.operations@ == local.operations@,
    {
        let mut operations: Vec<TextOperation> = Vec::new();
        let mut i: usize = 0;
        while i < local.operations.len()
            invariant
                i <= local.operations@.len(),
                operations@ == local.operations@.take(i as int),
            decreases local.operations@.len() - i,
        {
            operations.push(copy_operation(&local.operations[i]));
            proof { assert(operations@ =~= local.operations@.take(i + 1)); }
            i += 1;
        }
        proof { assert(local.operations@.take(i as int) =~= local.operations@); }
        Ok(CollaborativeText { content: local.content.clone(), version: local.version, operations })
    }
}

/// A collaboratively edited document: the local state with optimistic
/// updates, the state the server has acknowledged, the operations still
/// pending and the strategy that resolves conflicts.
#[verifier::reject_recursive_types(T)]
pub struct CollaborativeDocument<T: Document> {
    pub local: T,
    pub committed: T,
    pub operations: Vec<Operation>,
    pub resolver: Box<dyn ConflictResolver<T>>,
}

/// A collaborative document that starts from `initial` on both sides, with
/// no pending operation, resolving conflicts by keeping the local state.
pub fn use_collaborative_document<T: Document + Clone + 'static>(initial: T, document_id: String) -> (d: CollaborativeDocument<T>)
    where
        LastWriteWinsResolver: ConflictResolver<T>,
    ensures
        cloned(initial, d.local),
        d.committed == initial,
        d.operations@.len() == 0,
{
    let local = initial.clone();
    let resolver: Box<dyn ConflictResolver<T>> = Box::new(LastWriteWinsResolver);
    CollaborativeDocument { local, committed: initial, operations: Vec::new(), resolver }
}

/// A document operation; `timestamp` in milliseconds since the UNIX epoch.
#[derive(Debug, Clone)]
pub struct Operation {
    pub id: String,
    pub document_id: String,
    pub operation_type: OperationType,
    pub timestamp: u64,
    pub author: String,
    pub version: u64,
}

#[derive(Debug, Clone)]
pub enum OperationType {
    Insert { position: usize, content: String },
    Delete { position: usize, length: usize },
    Replace { position: usize, old_content: String, new_content: String },
}

#[derive(Debug, Clone)]
pub struct Selection {
    pub start: usize,
    pub end: usize,
    pub element_id: Option<String>,
}

#[verifier::external_type_specification]
#[verifier::external_body]
pub struct ExBigInt(BigInt);

/// The integer a `BigInt` holds.
pub uninterp spec fn bigint_value(b: BigInt) -> int;

/// `a / d` rounded toward zero, as integer division of `BigInt` rounds.
pub open spec fn div_toward_zero(a: int, d: int) -> int {
    if a >= 0 { a / d } else { -((-a) / d) }
}

/// `BigInt::from(0)`: zero.
#[verifier::external_body]
fn big_zero() -> (r: BigInt)
    ensures
        bigint_value(r) == 0,
{
    BigInt::from(0)
}

/// `&BigInt + &BigInt`: the sum.
#[verifier::external_body]
fn big_add(a: &BigInt, b: &BigInt) -> (r: BigInt)
    ensures
        bigint_value(r) == bigint_value(*a) + bigint_value(*b),
{
    a + b
}

/// `BigInt / i32` for a positive divisor: the quotient rounded toward zero.
#[verifier::external_body]
fn big_div(a: BigInt, d: i32) -> (r: BigInt)
    requires
        d > 0,
    ensures
        bigint_value(r) == div_toward_zero(bigint_value(a), d as int),
{
    a / d
}

/// `Clone` for `BigInt`: the same integer.
pub assume_specification [<BigInt as Clone>::clone](b: &BigInt) -> (r: BigInt)
    ensures
        bigint_value(r) == bigint_value(*b);

/// Fractional indexing for conflict-free ordering
#[derive(Debug, Clone)]
pub struct FractionalIndex {
    value: BigInt,
    client_id: String,
}

impl FractionalIndex {
    pub closed spec fn spec_value(&self) -> int {
        bigint_value(self.value)
    }

    pub closed spec fn spec_client_id(&self) -> Seq<char> {
        self.client_id@
    }

    /// The index zero of a client.
    pub fn new(client_id: String) -> (i: Self)
        ensures
            i.spec_value() == 0,
            i.spec_client_id() == client_id@,
    {
        Self { value: big_zero(), client_id }
    }

    /// The client's id.
    pub fn client_id(&self) -> (s: &str)
        ensures
            s@ == self.spec_client_id(),
    {
        self.client_id.as_str()
    }

    /// The index halfway between two (rounded toward zero), of this index's client.
    pub fn between(&self, other: &Self) -> (i: Self)
        ensures
            i.spec_value() == div_toward_zero(self.spec_value() + other.spec_value(), 2),
            i.spec_client_id() == self.spec_client_id(),
    {
        Self { value: big_div(big_add(&self.value, &other.value), 2), client_id: self.client_id.clone() }
    }
}

/// Between two indices lies one no lower than the lower and no higher than
/// the higher.
pub proof fn lemma_between_is_between(a: int, b: int)
    requires
        a <= b,
    ensures
        a <= div_toward_zero(a + b, 2) <= b,
{
}

} // verus!
