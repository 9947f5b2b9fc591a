//! Open files.

use crate::error::{Errno, Error};
use crate::fs::InodeRef;
use vstd::prelude::*;

verus! {

/// An open file that stands for an inode of the file system.
#[derive(Clone, Copy, Debug, PartialEq, Eq, Structural)]
pub struct FileInode {
    inode: InodeRef,
}

impl FileInode {
    /// The inode that the file stands for.
    pub closed spec fn inode(&self) -> InodeRef {
        self.inode
    }

    /// The open file that stands for `inode`.
    pub fn new(inode: InodeRef) -> (file: FileInode)
        ensures
            file.inode() == inode,
    {
        Self { inode }
    }

    /// The inode that the file stands for: such a file can be mapped.
    pub fn as_inode(&self) -> (r: Option<InodeRef>)
        ensures
            r == Some(self.inode()),
    {
        Some(self.inode)
    }

    /// Where in the inode a read starts: such a file is read from its start.
    pub fn read_offset(&self) -> (offset: usize)
        ensures
            offset == 0,
    {
        0
    }

    /// Where in the inode a write starts: such a file is written from its
    /// start.
    pub fn write_offset(&self) -> (offset: usize)
        ensures
            offset == 0,
    {
        0
    }
}

/// The code of the key that ends a line of input.
pub const CARRIAGE_RETURN: u8 = 13;

/// The code that ends a line of text.
pub const LINE_FEED: u8 = 10;

/// Whether `byte` is an ASCII character.
pub open spec fn is_ascii(byte: u8) -> bool {
    byte < 128
}

/// What the reader of the console gets for the bytes `received`: each ASCII
/// character among them, in order, and a line feed before each carriage
/// return. Other bytes are dropped.
pub open spec fn console_line(received: Seq<u8>) -> Seq<u8>
    decreases received.len(),
{
    if received.len() == 0 {
        Seq::<u8>::empty()
    } else {
        let rest = console_line(received.drop_last());
        let byte = received.last();
        if !is_ascii(byte) {
            rest
        } else if byte == CARRIAGE_RETURN {
            rest.push(LINE_FEED).push(byte)
        } else {
            rest.push(byte)
        }
    }
}

/// The console as a source of input.
#[derive(Clone, Copy, Debug, PartialEq, Eq, Structural)]
pub struct Stdin;

/// What the console makes of a run of bytes that it received.
#[derive(Debug)]
pub struct ConsoleInput {
    /// The bytes for the reader, in order.
    pub line: Vec<u8>,
    /// The characters to show on the console, in order.
    pub echo: Vec<u8>,
    /// Whether the run held the key that ends a line.
    pub need_return: bool,
}

impl Stdin {
    /// Takes in a run of bytes from the console. Each ASCII character is
    /// shown and handed to the reader, a carriage return behind a line feed;
    /// the read ends with the run that holds a carriage return. The number
    /// of characters read is the length of what is shown.
    pub fn receive(&self, received: &Vec<u8>) -> (input: ConsoleInput)
        ensures
            input.line@ == console_line(received@),
            input.echo@ == received@.filter(|byte: u8| is_ascii(byte)),
            input.need_return == received@.contains(CARRIAGE_RETURN),
    {
        let mut line: Vec<u8> = Vec::new();
        let mut echo: Vec<u8> = Vec::new();
        let mut need_return = false;
        let n: usize = received.len();
        let mut i: usize = 0;
        proof {
            reveal(Seq::filter);
            assert(received@.take(0) =~= Seq::<u8>::empty());
        }
        while i < n
            invariant
                i <= n,
                n == received@.len(),
                line@ == console_line(received@.take(i as int)),
                echo@ == received@.take(i as int).filter(|byte: u8| is_ascii(byte)),
                need_return == received@.take(i as int).contains(CARRIAGE_RETURN),
            decreases n - i,
        {
            let byte: u8 = received[i];
            proof {
                let before = received@.take(i as int);
                let now = received@.take(i + 1);
                assert(now.drop_last() =~= before);
                assert(now.last() == byte);
                assert(now =~= before.push(byte));
                reveal(Seq::filter);
                assert(now.contains(CARRIAGE_RETURN) == (before.contains(CARRIAGE_RETURN) || byte
                    == CARRIAGE_RETURN)) by {
                    if before.contains(CARRIAGE_RETURN) {
                        let k = choose|k: int| 0 <= k < before.len() && before[k] == CARRIAGE_RETURN;
                        assert(now[k] == CARRIAGE_RETURN);
                    }
                    if byte == CARRIAGE_RETURN {
                        assert(now[i as int] == CARRIAGE_RETURN);
                    }
                }
            }
            if byte < 128 {
                if byte == CARRIAGE_RETURN {
                    need_return = true;
                    line.push(LINE_FEED);
                }
                echo.push(byte);
                line.push(byte);
            }
            i += 1;
        }
        assert(received@.take(n as int) =~= received@);
        ConsoleInput { line, echo, need_return }
    }

    /// The console as a source of input takes no output.
    pub fn write(&self) -> (r: Result<usize, Error>)
        ensures
            r == Err::<usize, Error>(Error { code: Errno::ENOSYS }),
    {
        Err(Error::new(Errno::ENOSYS))
    }
}

/// The console as the place for what a program prints.
#[derive(Clone, Copy, Debug, PartialEq, Eq, Structural)]
pub struct Stdout;

impl Stdout {
    /// The console as a place for output gives no input.
    pub fn read(&self) -> (r: Result<usize, Error>)
        ensures
            r == Err::<usize, Error>(Error { code: Errno::ENOSYS }),
    {
        Err(Error::new(Errno::ENOSYS))
    }

    /// Takes `bytes` for the console: all of them count as written.
    pub fn write(&self, bytes: &Vec<u8>) -> (r: Result<usize, Error>)
        ensures
            r == Ok::<usize, Error>(bytes@.len() as usize),
    {
        Ok(bytes.len())
    }
}

/// The console as the place for what a program reports.
#[derive(Clone, Copy, Debug, PartialEq, Eq, Structural)]
pub struct Stderr;

impl Stderr {
    /// The console as a place for output gives no input.
    pub fn read(&self) -> (r: Result<usize, Error>)
        ensures
            r == Err::<usize, Error>(Error { code: Errno::ENOSYS }),
    {
        Err(Error::new(Errno::ENOSYS))
    }

    /// Takes `bytes` for the console: all of them count as written.
    pub fn write(&self, bytes: &Vec<u8>) -> (r: Result<usize, Error>)
        ensures
            r == Ok::<usize, Error>(bytes@.len() as usize),
    {
        Ok(bytes.len())
    }
}

} // verus!
