//! A file with known contents, for trying out a transfer.

use vstd::prelude::*;

use crate::text;

verus! {

/// The size of a block in bytes.
pub const BLOCK_SIZE: usize = 1024;

/// The bytes of a block count up from zero, and start again after so many.
pub const PERIOD: usize = 251;

/// The contents of a block.
pub open spec fn block() -> Seq<u8> {
    Seq::new(BLOCK_SIZE as nat, |i: int| (i % PERIOD as int) as u8)
}

/// So many blocks, one after the other.
pub open spec fn blocks(count: nat) -> Seq<u8>
    decreases count,
{
    if count == 0 {
        Seq::empty()
    } else {
        block() + blocks((count - 1) as nat)
    }
}

/// The name of a file made at `stamp`, in seconds since the epoch.
pub open spec fn test_file_name(stamp: u64) -> Seq<char> {
    "portalgems-test-"@ + text::decimal(stamp as nat) + ".bin"@
}

/// A file of `size_kb` blocks has `size_kb` KiB, and each of its bytes follows from
/// its place.
pub proof fn test_file_contents(size_kb: nat)
    ensures
        blocks(size_kb).len() == size_kb * 1024,
        forall|i: int|
            0 <= i < size_kb * 1024 ==> #[trigger] blocks(size_kb)[i] == (i % 1024) % 251,
    decreases size_kb,
{
    if size_kb > 0 {
        let less = (size_kb - 1) as nat;
        test_file_contents(less);
        assert forall|i: int| 0 <= i < size_kb * 1024 implies #[trigger] blocks(size_kb)[i] == (i
            % 1024) % 251 by {
            if i < 1024 {
                assert(blocks(size_kb)[i] == block()[i]);
            } else {
                assert(blocks(size_kb)[i] == blocks(less)[i - 1024]);
                assert((i - 1024) % 1024 == i % 1024);
            }
        }
    }
}

/// Files made at different times have different names.
pub proof fn test_file_names_are_distinct(a: u64, b: u64)
    requires
        test_file_name(a) == test_file_name(b),
    ensures
        a == b,
{
    let front = "portalgems-test-"@.len() as int;
    let back = ".bin"@.len() as int;
    let x = test_file_name(a);
    let y = test_file_name(b);
    assert(x.subrange(front, x.len() - back) =~= text::decimal(a as nat));
    assert(y.subrange(front, y.len() - back) =~= text::decimal(b as nat));
    text::decimal_is_injective(a as nat, b as nat);
}

/// The name of a test file is made of its time: between a fixed front and a fixed
/// back it has digits that read as that time, without leading zeros.
pub proof fn test_file_names_tell_the_time(stamp: u64)
    ensures
        ({
            let name = test_file_name(stamp);
            let digits = name.subrange(16, name.len() - 4);
            &&& name.len() > 20
            &&& name == "portalgems-test-"@ + digits + ".bin"@
            &&& forall|k: int| 0 <= k < digits.len() ==> '0' <= #[trigger] digits[k] <= '9'
            &&& digits.len() > 1 ==> digits[0] != '0'
            &&& digits.fold_left(0int, |v: int, c: char| 10 * v + (c as int - '0' as int)) == stamp
        }),
{
    reveal_strlit("portalgems-test-");
    reveal_strlit(".bin");
    text::decimal_reads_back(stamp as nat);
    let name = test_file_name(stamp);
    assert(name.subrange(16, name.len() - 4) =~= text::decimal(stamp as nat));
}

/// A test file, as a model: its name, and how many blocks are still to be written.
pub struct TestFileView {
    pub name: Seq<char>,
    pub blocks_left: nat,
}

/// A test file that is being written.
#[derive(Debug)]
pub struct TestFile {
    name: String,
    block: Vec<u8>,
    blocks_left: u32,
}

impl View for TestFile {
    type V = TestFileView;

    closed spec fn view(&self) -> TestFileView {
        TestFileView { name: self.name@, blocks_left: self.blocks_left as nat }
    }
}

/// The contents of a block.
fn make_block() -> (bytes: Vec<u8>)
    ensures
        bytes@ == block(),
{
    let mut bytes: Vec<u8> = Vec::new();
    let mut i: usize = 0;
    while i < BLOCK_SIZE
        invariant
            i <= BLOCK_SIZE,
            bytes@ == block().take(i as int),
        decreases BLOCK_SIZE - i,
    {
        bytes.push((i % PERIOD) as u8);
        i = i + 1;
        assert(bytes@ =~= block().take(i as int));
    }
    assert(block().take(BLOCK_SIZE as int) =~= block());
    bytes
}

/// Starts a test file of `size_kb` KiB, named after the time `stamp`.
pub fn create_test_file(stamp: u64, size_kb: u32) -> (file: TestFile)
    ensures
        file@ == (TestFileView { name: test_file_name(stamp), blocks_left: size_kb as nat }),
        file@.name == "portalgems-test-"@ + text::decimal(stamp as nat) + ".bin"@,
        file@.blocks_left == size_kb,
{
    let mut name = "portalgems-test-".to_owned();
    text::append_decimal(&mut name, stamp);
    name.append(".bin");
    TestFile { name, block: make_block(), blocks_left: size_kb }
}

impl TestFile {
    #[verifier::type_invariant]
    spec fn has_block(self) -> bool {
        self.block@ == block()
    }

    /// The name of the file.
    pub fn name(&self) -> (name: String)
        ensures
            name@ == self@.name,
    {
        self.name.clone()
    }

    /// The next block to be written, until there is none.
    pub fn next_block(&mut self) -> (r: Option<Vec<u8>>)
        ensures
            final(self)@.name == old(self)@.name,
            old(self)@.blocks_left == 0 ==> r is None && final(self)@.blocks_left == 0,
            old(self)@.blocks_left > 0 ==> (r matches Some(bytes) && bytes@ == block())
                && final(self)@.blocks_left == old(self)@.blocks_left - 1,
            match r {
                Some(bytes) => blocks(old(self)@.blocks_left) == bytes@ + blocks(
                    final(self)@.blocks_left,
                ),
                None => blocks(old(self)@.blocks_left) == Seq::<u8>::empty(),
            },
            r matches Some(bytes) ==> bytes@.len() == 1024 && forall|i: int|
                0 <= i < 1024 ==> #[trigger] bytes@[i] == i % 251,
    {
        proof {
            use_type_invariant(&*self);
        }
        if self.blocks_left == 0 {
            None
        } else {
            self.blocks_left = self.blocks_left - 1;
            Some(self.block.clone())
        }
    }
}

} // verus!
