use os::user::{shutdown, sys_exit, sys_write, SbiRequest, SyscallRequest};

#[test]
fn exit_registers() {
    assert_eq!(sys_exit(9), SyscallRequest { id: 93, args: [9, 0, 0] });
    assert_eq!(sys_exit(-1), SyscallRequest { id: 93, args: [usize::MAX, 0, 0] });
}

#[test]
fn write_registers() {
    assert_eq!(sys_write(1, 0x1000, 5), SyscallRequest { id: 64, args: [1, 0x1000, 5] });
}

#[test]
fn shutdown_registers() {
    assert_eq!(shutdown(), SbiRequest { which: 8, arg1: 0, arg2: 0, arg3: 0 });
}
