use std::io::IoSlice;
use std::time::Duration;

use openssh::sftp_file::{
    concat_path_if_needed, next_read_len, read_capacity, read_request_len, write_request_len,
    Cache, CachedId, CreateMode, FileCursor, IoStart, IoStep, OpenFlags, SeekError, SeekPos,
};
use openssh::sftp_options::{compute_limits, Limits, ServerLimits, SftpOptions};

#[test]
fn option_defaults() {
    let o = SftpOptions::new();
    assert_eq!(o.get_flush_interval(), Duration::from_micros(500));
    assert_eq!(o.get_max_pending_requests(), 100);
    assert_eq!(o.get_max_read_len(), None);
    assert_eq!(o.get_max_write_len(), None);
    let d = SftpOptions::default();
    assert_eq!(d.get_flush_interval(), Duration::from_micros(500));
}

#[test]
fn option_setters() {
    let o = SftpOptions::new()
        .flush_interval(Duration::from_millis(3))
        .max_read_len(1000)
        .max_write_len(2000)
        .max_pending_requests(7);
    assert_eq!(o.get_flush_interval(), Duration::from_millis(3));
    assert_eq!(o.get_max_read_len(), Some(1000));
    assert_eq!(o.get_max_write_len(), Some(2000));
    assert_eq!(o.get_max_pending_requests(), 7);
}

#[test]
fn limits_without_extension() {
    let l = compute_limits(None, &SftpOptions::new());
    assert_eq!(l, Limits { read_len: 20480, write_len: 20480 });
    let l = compute_limits(None, &SftpOptions::new().max_read_len(100));
    assert_eq!(l, Limits { read_len: 100, write_len: 20480 });
    let l = compute_limits(None, &SftpOptions::new().max_write_len(1 << 20));
    assert_eq!(l, Limits { read_len: 20480, write_len: 20480 });
}

#[test]
fn limits_from_server() {
    let server = ServerLimits { packet_len: 262144, read_len: 261120, write_len: 261120 };
    let l = compute_limits(Some(server), &SftpOptions::new());
    assert_eq!(l, Limits { read_len: 261120, write_len: 261120 });
    let l = compute_limits(Some(server), &SftpOptions::new().max_write_len(4096));
    assert_eq!(l, Limits { read_len: 261120, write_len: 4096 });

    let zero = ServerLimits { packet_len: 0x1_0000_0000, read_len: 0, write_len: 0 };
    let l = compute_limits(Some(zero), &SftpOptions::new());
    assert_eq!(l, Limits { read_len: 20480, write_len: 20480 });

    let huge = ServerLimits { packet_len: 1000, read_len: u64::MAX, write_len: 1 << 40 };
    let l = compute_limits(Some(huge), &SftpOptions::new());
    assert_eq!(l, Limits { read_len: 700, write_len: 700 });

    let huge_packet = ServerLimits { packet_len: u64::MAX, read_len: u64::MAX, write_len: 5 };
    let l = compute_limits(Some(huge_packet), &SftpOptions::new());
    assert_eq!(l, Limits { read_len: 0xffff_ffff - 9 - 300, write_len: 5 });
}

#[test]
fn open_flags() {
    let mut f = OpenFlags::new();
    assert_eq!(f.create_mode(), None);
    f.read(true).write(true);
    assert!(f.read && f.write && !f.append);
    assert_eq!(f.create_mode(), None);
    f.truncate(true);
    assert_eq!(f.create_mode(), None);
    f.create(true);
    assert_eq!(f.create_mode(), Some(CreateMode::Trunc));
    f.truncate(false);
    assert_eq!(f.create_mode(), Some(CreateMode::Keep));
    f.create_new(true);
    assert_eq!(f.create_mode(), Some(CreateMode::Excl));
    f.create(false).truncate(true);
    assert_eq!(f.create_mode(), Some(CreateMode::Excl));
    f.append(true);
    assert!(f.append);
}

#[test]
fn seeking() {
    let mut flags = OpenFlags::new();
    flags.read(true);
    let mut c = FileCursor::new(&flags);
    assert_eq!(c, FileCursor { offset: 0, is_readable: true, is_writable: false });
    assert_eq!(c.start_seek(SeekPos::Start(0)), Ok(false));
    assert_eq!(c.start_seek(SeekPos::Start(100)), Ok(true));
    assert_eq!(c.offset, 100);
    assert_eq!(c.start_seek(SeekPos::Current(0)), Ok(false));
    assert_eq!(c.start_seek(SeekPos::Current(-40)), Ok(true));
    assert_eq!(c.offset, 60);
    assert_eq!(c.start_seek(SeekPos::Current(40)), Ok(true));
    assert_eq!(c.offset, 100);
    assert_eq!(c.start_seek(SeekPos::Current(-101)), Err(SeekError::Underflow));
    assert_eq!(c.offset, 100);
    assert_eq!(c.start_seek(SeekPos::End(0)), Err(SeekError::FromEnd));
    assert_eq!(c.offset, 100);
    assert_eq!(c.start_seek(SeekPos::Start(u64::MAX)), Ok(true));
    assert_eq!(c.start_seek(SeekPos::Current(1)), Err(SeekError::Overflow));
    assert_eq!(c.offset, u64::MAX);
    assert_eq!(c.start_seek(SeekPos::Current(i64::MIN + 1)), Ok(true));
    assert_eq!(c.offset, u64::MAX - (i64::MAX as u64));
}

#[test]
fn request_lengths() {
    assert_eq!(read_request_len(10, 100), 10);
    assert_eq!(read_request_len(1000, 100), 100);
    assert_eq!(read_request_len(100, 100), 100);
    assert_eq!(write_request_len(10, 100), 10);
    assert_eq!(write_request_len(1 << 40, 100), 100);
    assert_eq!(read_capacity(Some(1000), 20480), 1300);
    assert_eq!(read_capacity(None, 20480), 20480);
    assert_eq!(read_capacity(Some(u64::MAX), 20480), if usize::MAX as u64 == u64::MAX { usize::MAX } else { 20480 });
    assert_eq!(next_read_len(0, 1300, 20480), 1600);
    assert_eq!(next_read_len(1300, 1300, 20480), 300);
    assert_eq!(next_read_len(0, 100000, 20480), 20480);
    assert_eq!(next_read_len(1301, 1300, 20480), 20480);
}

#[test]
fn cache_take_and_set() {
    let mut c = Cache::new(Some(5));
    assert_eq!(c.take(), Some(5));
    assert_eq!(c.take(), None);
    c.set(9);
    c.set(10);
    assert_eq!(c.take(), Some(10));
    let mut e: Cache<String> = Cache::new(None);
    assert_eq!(e.take(), None);
}

#[test]
fn concat_paths() {
    assert_eq!(concat_path_if_needed("/home/u", "f.txt"), "/home/u/f.txt");
    assert_eq!(concat_path_if_needed("/home/u/", "f.txt"), "/home/u/f.txt");
    assert_eq!(concat_path_if_needed("/home/u", "/etc/x"), "/etc/x");
    assert_eq!(concat_path_if_needed("", "f.txt"), "f.txt");
    assert_eq!(concat_path_if_needed("d", ""), "d/");
}

#[test]
fn reads_and_writes_step_the_cursor() {
    let mut flags = OpenFlags::new();
    flags.read(true);
    let mut c = FileCursor::new(&flags);
    assert_eq!(c.begin_read(0, 100), IoStart::Nothing);
    assert_eq!(c.begin_read(1000, 100), IoStart::Request(100));
    assert_eq!(c.begin_read(10, 100), IoStart::Request(10));
    assert_eq!(c.begin_write(10, 100), IoStart::NotPermitted);
    assert_eq!(c.finish_read(100, 40), Ok(40));
    assert_eq!(c.offset, 40);
    assert_eq!(c.finish_read(100, 500), Ok(100));
    assert_eq!(c.offset, 140);
    assert_eq!(c.advance(0), Ok(false));
    assert_eq!(c.advance(60), Ok(true));
    assert_eq!(c.offset, 200);

    let mut flags = OpenFlags::new();
    flags.write(true);
    let mut w = FileCursor::new(&flags);
    assert_eq!(w.begin_read(10, 100), IoStart::NotPermitted);
    assert_eq!(w.begin_write(0, 100), IoStart::Nothing);
    assert_eq!(w.begin_write(1 << 20, 4096), IoStart::Request(4096));
    w.start_seek(SeekPos::Start(u64::MAX - 1)).unwrap();
    assert_eq!(w.advance(2), Err(SeekError::Overflow));
    assert_eq!(w.offset, u64::MAX - 1);
    assert_eq!(w.finish_read(5, 5), Err(SeekError::Overflow));
}

#[test]
fn cached_ids() {
    let mut c: CachedId<u32> = CachedId::new();
    assert_eq!(c.get_id_mut(), None);
    assert_eq!(c.cache_id_mut(7), None);
    assert_eq!(c.cache_id_mut(8), Some(8));
    assert_eq!(c.get_id_mut(), Some(7));
    assert_eq!(c.get_id_mut(), None);
}

#[test]
fn read_and_write_steps() {
    let mut flags = OpenFlags::new();
    flags.read(true);
    let mut r = FileCursor::new(&flags);
    r.start_seek(SeekPos::Start(10)).unwrap();
    assert_eq!(r.read_step(0, 100), IoStep::Nothing);
    assert_eq!(r.read_step(500, 100), IoStep::Request { offset: 10, len: 100 });
    assert_eq!(r.write_step(5, 100), (IoStep::NotPermitted, Ok(())));
    assert_eq!(r.offset, 10);

    let mut flags = OpenFlags::new();
    flags.write(true);
    let mut w = FileCursor::new(&flags);
    assert_eq!(w.read_step(5, 100), IoStep::NotPermitted);
    assert_eq!(w.write_step(0, 100), (IoStep::Nothing, Ok(())));
    assert_eq!(w.write_step(250, 100), (IoStep::Request { offset: 0, len: 100 }, Ok(())));
    assert_eq!(w.write_step(30, 100), (IoStep::Request { offset: 100, len: 30 }, Ok(())));
    assert_eq!(w.offset, 130);
    w.start_seek(SeekPos::Start(u64::MAX - 5)).unwrap();
    assert_eq!(
        w.write_step(10, 100),
        (IoStep::Request { offset: u64::MAX - 5, len: 10 }, Err(SeekError::Overflow))
    );
    assert_eq!(w.offset, u64::MAX - 5);
}

#[test]
fn vectored_write_steps() {
    let a = b"0123456789";
    let b = b"abcdefghij";
    let bufs = [IoSlice::new(a), IoSlice::new(b)];

    let mut flags = OpenFlags::new();
    flags.write(true);
    let mut w = FileCursor::new(&flags);
    let (step, parts, moved) = w.write_vectored_step(&bufs, 15);
    assert_eq!(step, IoStep::Request { offset: 0, len: 15 });
    assert_eq!(moved, Ok(()));
    let (whole, rem) = parts.unwrap();
    assert_eq!(whole.len(), 1);
    assert_eq!(&*rem[0], b"abcde");
    assert_eq!(w.offset, 15);

    let (step, parts, _) = w.write_vectored_step(&[], 15);
    assert_eq!(step, IoStep::Nothing);
    assert!(parts.is_none());

    let r = FileCursor::new(&OpenFlags::new());
    let mut r = r;
    let (step, parts, moved) = r.write_vectored_step(&bufs, 15);
    assert_eq!(step, IoStep::NotPermitted);
    assert!(parts.is_none());
    assert_eq!(moved, Ok(()));
}
