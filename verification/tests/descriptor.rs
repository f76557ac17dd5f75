use std::sync::Arc;

use atomic_refcell::AtomicRefCell;
use shadow_host::descriptor::{
    compatdescriptor_asLegacy, compatdescriptor_borrowPosixFile, compatdescriptor_fromLegacy,
    compatdescriptor_newRefPosixFile, compatdescriptor_setHandle, CompatDescriptor, Descriptor,
    PipeFile, PosixFile,
};
use shadow_host::errno::{Errno, SyscallReturn};
use shadow_host::events::{EventQueue, StatusEventSource};
use shadow_host::flags::{FileState, Status};
use shadow_host::futex_table::{FutexRef, FutexTable};

struct Pipe {
    content: Vec<u8>,
    source: StatusEventSource,
}

impl PipeFile for Pipe {
    fn read(&mut self, bytes: &mut [u8], event_queue: &mut EventQueue) -> SyscallReturn {
        if self.content.is_empty() {
            return SyscallReturn::Error(Errno::EAGAIN);
        }
        let len = bytes.len().min(self.content.len());
        bytes[..len].copy_from_slice(&self.content[..len]);
        self.content.drain(..len);
        let status = self.status();
        self.source
            .notify_listeners(status, FileState::readable().bits(), event_queue);
        SyscallReturn::Success(len as i32)
    }

    fn write(&mut self, bytes: &[u8], event_queue: &mut EventQueue) -> SyscallReturn {
        self.content.extend_from_slice(bytes);
        let status = self.status();
        self.source
            .notify_listeners(status, FileState::readable().bits(), event_queue);
        SyscallReturn::Success(bytes.len() as i32)
    }

    fn status(&self) -> Status {
        if self.content.is_empty() {
            FileState::active().bits()
        } else {
            (FileState::active() | FileState::readable()).bits()
        }
    }

    fn add_legacy_listener(&mut self, ptr: usize) -> bool {
        self.source.add_legacy_listener(ptr)
    }

    fn remove_legacy_listener(&mut self, ptr: usize) -> bool {
        self.source.remove_legacy_listener(ptr)
    }
}

fn pipe() -> PosixFile<Pipe> {
    PosixFile::Pipe(Pipe {
        content: Vec::new(),
        source: StatusEventSource::new(),
    })
}

#[test]
fn posix_file_does_what_the_pipe_does() {
    let mut queue = EventQueue::new();
    let mut file = pipe();
    let mut buffer = [0; 2];
    assert_eq!(
        file.read(&mut buffer, &mut queue),
        SyscallReturn::Error(Errno::EAGAIN)
    );
    assert!(file.add_legacy_listener(16));
    assert_eq!(file.write(&[1, 2, 3], &mut queue), SyscallReturn::Success(3));
    assert!(queue.pop().is_some());
    assert_eq!(file.status(), (FileState::active() | FileState::readable()).bits());
    assert_eq!(file.read(&mut buffer, &mut queue), SyscallReturn::Success(2));
    assert_eq!(buffer, [1, 2]);
    assert!(queue.pop().is_some());
    assert!(file.remove_legacy_listener(16));
    assert_eq!(file.read(&mut buffer, &mut queue), SyscallReturn::Success(1));
    assert!(queue.pop().is_none());
    assert_eq!(file.status(), FileState::active().bits());
}

#[test]
fn descriptor_keeps_file_and_flags() {
    let file = Arc::new(AtomicRefCell::new(pipe()));
    let mut descriptor = Descriptor::new(Arc::clone(&file));
    assert_eq!(descriptor.get_flags(), 0);
    descriptor.set_flags(1);
    descriptor.add_flags(6);
    assert_eq!(descriptor.get_flags(), 7);
    let copy = descriptor.clone();
    descriptor.set_flags(0);
    assert_eq!(copy.get_flags(), 7);
    assert!(Arc::ptr_eq(copy.get_file(), &file));
    assert_eq!(Arc::strong_count(&file), 3);
}

#[test]
fn compat_descriptor_of_a_new_file() {
    let file = Arc::new(AtomicRefCell::new(pipe()));
    let descriptor = CompatDescriptor::New(Descriptor::new(Arc::clone(&file)));
    assert_eq!(compatdescriptor_asLegacy(&descriptor), 0);
    assert_eq!(compatdescriptor_setHandle(&descriptor, 3), None);
    let borrowed = compatdescriptor_borrowPosixFile(&descriptor).unwrap();
    assert!(Arc::ptr_eq(borrowed, &file));
    assert_eq!(Arc::strong_count(&file), 2);
    let counted = compatdescriptor_newRefPosixFile(&descriptor).unwrap();
    assert_eq!(Arc::strong_count(&file), 3);
    drop(counted);
    assert_eq!(descriptor.release(), None);
    assert_eq!(Arc::strong_count(&file), 1);
}

#[test]
fn compat_descriptor_of_a_legacy_object() {
    let descriptor: CompatDescriptor<Pipe> = compatdescriptor_fromLegacy(0x77);
    assert_eq!(compatdescriptor_asLegacy(&descriptor), 0x77);
    assert_eq!(compatdescriptor_setHandle(&descriptor, 3), Some((0x77, 3)));
    assert!(compatdescriptor_borrowPosixFile(&descriptor).is_none());
    assert!(compatdescriptor_newRefPosixFile(&descriptor).is_none());
    assert_eq!(descriptor.release(), Some(0x77));
}

#[test]
fn futex_table_holds_one_futex_per_address() {
    let mut table = FutexTable::new();
    assert!(table.get(1).is_none());
    assert!(table.add(FutexRef::new(0x10, 1)).is_ok());
    assert!(table.add(FutexRef::new(0x20, 2)).is_ok());
    let refused = table.add(FutexRef::new(0x30, 1)).err().unwrap();
    assert_eq!((refused.ptr(), refused.physical_addr()), (0x30, 1));
    assert_eq!(table.get(1).unwrap().ptr(), 0x10);
    assert_eq!(table.get(2).unwrap().ptr(), 0x20);
    assert_eq!(table.remove(1).unwrap().ptr(), 0x10);
    assert!(table.remove(1).is_none());
    assert!(table.get(1).is_none());
    assert_eq!(table.get(2).unwrap().physical_addr(), 2);
}
