//! Display and QuickDraw state that the adapters of a process share.

use systemless::cells::SharedCells;
use systemless::cursor::CursorImage;
use systemless::display_state::{
    ColorTable, DisplayGamma, ProcessDisplayGammaState, SharedProcessDisplayClut,
    SharedProcessDisplayGamma,
};
use systemless::process_context::{ProcessCells, ProcessContext, ProcessDefaults};
use systemless::quickdraw_state::{
    SharedProcessGraphicsDevice, SharedProcessGraphicsPort, SharedProcessQuickDrawError,
    SharedProcessQuickDrawHiliteColors, SharedProcessQuickDrawOpColors,
    SharedProcessQuickDrawPixelStates,
};

const STANDARD_COLORS: ColorTable = [[0xFFFF; 3]; 256];
const DEFAULT_GAMMA: DisplayGamma = [[7; 256]; 3];

fn defaults() -> ProcessDefaults {
    ProcessDefaults {
        colors: STANDARD_COLORS,
        gamma: DEFAULT_GAMMA,
        arrow: CursorImage::mono([0xAA; 32], [0xFF; 32], 1, 1),
    }
}

fn new_context(cells: &mut ProcessCells) -> ProcessContext {
    ProcessContext::new(cells, &defaults())
}

fn new_clut(cells: &mut SharedCells<ColorTable>) -> SharedProcessDisplayClut {
    SharedProcessDisplayClut::from_value(cells, STANDARD_COLORS)
}

fn new_gamma(cells: &mut SharedCells<ProcessDisplayGammaState>) -> SharedProcessDisplayGamma {
    SharedProcessDisplayGamma::from_value(cells, ProcessDisplayGammaState::new(DEFAULT_GAMMA))
}

#[test]
fn process_display_gamma_encapsulation() {
    let mut cells = SharedCells::new();
    let gammas = &mut cells;
    let gamma = new_gamma(gammas);
    assert!(gamma.is_pristine(gammas, &DEFAULT_GAMMA));
    assert!(!gamma.is_explicit(gammas));
    assert_eq!(gamma.table(gammas), DEFAULT_GAMMA);

    let mut custom = [[0u8; 256]; 3];
    custom[0][1] = 42;
    gamma.set_implicit(gammas, custom);
    assert!(!gamma.is_explicit(gammas));
    assert_eq!(gamma.table(gammas), custom);

    let mut explicit_table = [[1u8; 256]; 3];
    explicit_table[1][2] = 99;
    gamma.install(gammas, explicit_table);
    assert!(gamma.is_explicit(gammas));
    assert!(!gamma.is_pristine(gammas, &DEFAULT_GAMMA));
    assert_eq!(gamma.table(gammas), explicit_table);

    gamma.set_implicit(gammas, custom);
    assert_eq!(gamma.table(gammas), explicit_table);

    let snapshot = gamma.snapshot(gammas);
    assert!(snapshot.explicit);
    assert_eq!(snapshot.table, explicit_table);

    let from_val = SharedProcessDisplayGamma::from_value(gammas, snapshot);
    assert!(from_val.is_explicit(gammas));
    assert_eq!(from_val.table(gammas), explicit_table);
}

#[test]
fn process_display_clut_encapsulation() {
    let mut cells = SharedCells::new();
    let tables = &mut cells;
    let clut = new_clut(tables);
    assert!(clut.is_pristine(tables, &STANDARD_COLORS));
    assert_eq!(clut.snapshot(tables), STANDARD_COLORS);

    let zero_clut = SharedProcessDisplayClut::from_value(tables, [[0u16; 3]; 256]);
    assert!(zero_clut.is_pristine(tables, &STANDARD_COLORS));

    clut.set_entry(tables, 1, [1000, 2000, 3000]);
    assert!(!clut.is_pristine(tables, &STANDARD_COLORS));
    assert_eq!(clut.entry(tables, 1), [1000, 2000, 3000]);

    let custom = [[500u16; 3]; 256];
    clut.replace(tables, custom);
    assert!(!clut.is_pristine(tables, &STANDARD_COLORS));
    assert_eq!(clut.snapshot(tables), custom);

    clut.fill(tables, [777, 888, 999]);
    assert_eq!(clut.entry(tables, 0), [777, 888, 999]);
    assert_eq!(clut.entry(tables, 255), [777, 888, 999]);

    let shared = clut.shared_handle();
    assert!(clut.ptr_eq(&shared));
}

#[test]
fn attached_display_cluts_share_immediately_while_clones_detach() {
    let mut cells = ProcessCells::new();
    let context = new_context(&mut cells);
    let mut classic_device = new_clut(&mut cells.color_tables);
    let mut classic_color = new_clut(&mut cells.color_tables);
    let mut classic_gamma = new_gamma(&mut cells.gammas);
    let mut native_device = new_clut(&mut cells.color_tables);
    let mut native_color = new_clut(&mut cells.color_tables);
    let mut native_gamma = new_gamma(&mut cells.gammas);

    assert!(classic_device.is_pristine(&cells.color_tables, &STANDARD_COLORS));
    assert!(classic_color.is_pristine(&cells.color_tables, &STANDARD_COLORS));

    context.attach_display_color_state(
        &mut cells,
        &mut classic_device,
        &mut classic_color,
        &mut classic_gamma,
        &defaults(),
    );

    classic_device.set_entry(&mut cells.color_tables, 1, [1000, 2000, 3000]);
    classic_color.set_entry(&mut cells.color_tables, 2, [4000, 5000, 6000]);
    assert!(!classic_device.is_pristine(&cells.color_tables, &STANDARD_COLORS));
    assert!(!classic_color.is_pristine(&cells.color_tables, &STANDARD_COLORS));

    context.attach_display_color_state(
        &mut cells,
        &mut native_device,
        &mut native_color,
        &mut native_gamma,
        &defaults(),
    );
    let tables = &mut cells.color_tables;
    let detached = native_device.detached_clone(tables);

    assert!(classic_device.ptr_eq(&native_device));
    assert!(classic_color.ptr_eq(&native_color));
    assert_eq!(native_device.entry(tables, 1), [1000, 2000, 3000]);
    assert_eq!(native_color.entry(tables, 2), [4000, 5000, 6000]);

    detached.set_entry(tables, 1, [9999, 9999, 9999]);
    assert!(!native_device.ptr_eq(&detached));
    assert_eq!(native_device.entry(tables, 1), [1000, 2000, 3000]);
    assert_eq!(detached.entry(tables, 1), [9999, 9999, 9999]);
}

#[test]
fn attached_display_gammas_share_immediately_while_clones_detach() {
    let mut cells = ProcessCells::new();
    let context = new_context(&mut cells);
    let mut classic_device = new_clut(&mut cells.color_tables);
    let mut classic_color = new_clut(&mut cells.color_tables);
    let mut classic_gamma = new_gamma(&mut cells.gammas);
    let mut native_device = new_clut(&mut cells.color_tables);
    let mut native_color = new_clut(&mut cells.color_tables);
    let mut native_gamma = new_gamma(&mut cells.gammas);

    context.attach_display_color_state(
        &mut cells,
        &mut classic_device,
        &mut classic_color,
        &mut classic_gamma,
        &defaults(),
    );
    let mut custom = [[10u8; 256]; 3];
    custom[0][0] = 77;
    classic_gamma.install(&mut cells.gammas, custom);

    context.attach_display_color_state(
        &mut cells,
        &mut native_device,
        &mut native_color,
        &mut native_gamma,
        &defaults(),
    );
    let gammas = &mut cells.gammas;
    let process = &context.display_gamma;
    let detached = native_gamma.detached_clone(gammas);

    assert!(classic_gamma.ptr_eq(&native_gamma));
    assert!(process.ptr_eq(&classic_gamma));
    assert_eq!(native_gamma.table(gammas), custom);
    assert_eq!(process.table(gammas), custom);
    assert!(native_gamma.is_explicit(gammas));

    let detached_table = [[20u8; 256]; 3];
    detached.install(gammas, detached_table);
    assert!(!native_gamma.ptr_eq(&detached));
    assert_eq!(classic_gamma.table(gammas), custom);
    assert_eq!(native_gamma.table(gammas), custom);
    assert_eq!(process.table(gammas), custom);
    assert_eq!(detached.table(gammas), detached_table);

    let shared_table = [[30u8; 256]; 3];
    native_gamma.install(gammas, shared_table);
    assert_eq!(classic_gamma.table(gammas), shared_table);
    assert_eq!(process.table(gammas), shared_table);
    assert_eq!(detached.table(gammas), detached_table);
}

#[test]
fn process_quickdraw_error_encapsulation() {
    let mut cells = SharedCells::new();
    let errors = &mut cells;
    let error = SharedProcessQuickDrawError::new(errors);
    assert!(error.is_pristine(errors));
    assert_eq!(error.get(errors), 0);
    assert!(error.is_ok(errors));
    assert!(!error.is_err(errors));
    assert_eq!(error.to_text(errors), "0");

    error.set(errors, -108);
    assert!(!error.is_pristine(errors));
    assert_eq!(error.get(errors), -108);
    assert!(!error.is_ok(errors));
    assert!(error.is_err(errors));
    assert_eq!(error.to_text(errors), "-108");
    let zero = SharedProcessQuickDrawError::from_value(errors, 0);
    assert_eq!(zero.get(errors), 0);

    let prev = error.replace(errors, -145);
    assert_eq!(prev, -108);
    assert_eq!(error.get(errors), -145);

    error.clear(errors);
    assert!(error.is_pristine(errors));
    assert_eq!(error.get(errors), 0);

    let handle = error.shared_handle();
    assert!(error.ptr_eq(&handle));
    handle.set(errors, -50);
    assert_eq!(error.get(errors), -50);
}

#[test]
fn attached_quickdraw_errors_share_immediately_while_clones_detach() {
    let mut cells = ProcessCells::new();
    let context = new_context(&mut cells);
    let mut adapter = SharedProcessQuickDrawError::new(&mut cells.errors);
    assert!(adapter.is_pristine(&cells.errors));

    context.attach_quickdraw_error(&mut cells, &mut adapter);
    let errors = &mut cells.errors;
    let process = &context.quickdraw_error;
    assert!(adapter.ptr_eq(process));

    adapter.set(errors, -145);
    assert_eq!(process.get(errors), -145);
    assert_eq!(adapter.get(errors), -145);

    let detached = adapter.detached_clone(errors);
    assert!(!detached.ptr_eq(&adapter));
    assert_eq!(detached.get(errors), -145);

    detached.set(errors, -108);
    assert_eq!(detached.get(errors), -108);
    assert_eq!(adapter.get(errors), -145);
    assert_eq!(process.get(errors), -145);
}

#[test]
fn process_quickdraw_op_colors_encapsulation() {
    let mut cells = SharedCells::new();
    let maps = &mut cells;
    let op_colors = SharedProcessQuickDrawOpColors::new(maps);
    assert!(op_colors.is_pristine(maps));
    assert!(op_colors.is_empty(maps));
    assert_eq!(op_colors.len(maps), 0);
    assert_eq!(op_colors.quickdraw_op_color(maps, 0x1000), None);

    op_colors.set_quickdraw_op_color(maps, 0x1000, (0x1234, 0x5678, 0x9abc));
    assert!(!op_colors.is_pristine(maps));
    assert!(!op_colors.is_empty(maps));
    assert_eq!(op_colors.len(maps), 1);
    assert_eq!(
        op_colors.quickdraw_op_color(maps, 0x1000),
        Some((0x1234, 0x5678, 0x9abc))
    );

    let handle = op_colors.shared_handle();
    assert!(op_colors.ptr_eq(&handle));
    handle.set_quickdraw_op_color(maps, 0x2000, (0x1111, 0x2222, 0x3333));
    assert_eq!(op_colors.len(maps), 2);
    assert_eq!(
        op_colors.quickdraw_op_color(maps, 0x2000),
        Some((0x1111, 0x2222, 0x3333))
    );

    op_colors.remove_quickdraw_op_color(maps, 0x1000);
    assert_eq!(op_colors.len(maps), 1);
    assert_eq!(op_colors.quickdraw_op_color(maps, 0x1000), None);
    assert_eq!(
        op_colors.quickdraw_op_color(maps, 0x2000),
        Some((0x1111, 0x2222, 0x3333))
    );

    op_colors.clear(maps);
    assert!(op_colors.is_pristine(maps));
    assert!(op_colors.is_empty(maps));
    assert_eq!(op_colors.len(maps), 0);
}

#[test]
fn attached_quickdraw_op_colors_share_immediately_while_clones_detach() {
    let mut cells = ProcessCells::new();
    let context = new_context(&mut cells);
    let mut adapter = SharedProcessQuickDrawOpColors::new(&mut cells.op_colors);
    assert!(adapter.is_pristine(&cells.op_colors));

    context.attach_quickdraw_op_colors(&mut cells, &mut adapter);
    let maps = &mut cells.op_colors;
    let process = &context.quickdraw_op_colors;
    assert!(adapter.ptr_eq(process));

    adapter.set_quickdraw_op_color(maps, 0x1000, (0xaaaa, 0xbbbb, 0xcccc));
    assert_eq!(
        process.quickdraw_op_color(maps, 0x1000),
        Some((0xaaaa, 0xbbbb, 0xcccc))
    );
    assert_eq!(
        adapter.quickdraw_op_color(maps, 0x1000),
        Some((0xaaaa, 0xbbbb, 0xcccc))
    );

    let detached = adapter.detached_clone(maps);
    assert!(!detached.ptr_eq(&adapter));
    assert_eq!(
        detached.quickdraw_op_color(maps, 0x1000),
        Some((0xaaaa, 0xbbbb, 0xcccc))
    );

    detached.set_quickdraw_op_color(maps, 0x1000, (0x1111, 0x2222, 0x3333));
    assert_eq!(
        detached.quickdraw_op_color(maps, 0x1000),
        Some((0x1111, 0x2222, 0x3333))
    );
    assert_eq!(
        adapter.quickdraw_op_color(maps, 0x1000),
        Some((0xaaaa, 0xbbbb, 0xcccc))
    );
    assert_eq!(
        process.quickdraw_op_color(maps, 0x1000),
        Some((0xaaaa, 0xbbbb, 0xcccc))
    );
}

#[test]
fn process_quickdraw_hilite_colors_encapsulation() {
    let mut cells = SharedCells::new();
    let maps = &mut cells;
    let hilite_colors = SharedProcessQuickDrawHiliteColors::new(maps);
    assert!(hilite_colors.is_pristine(maps));
    assert!(hilite_colors.is_empty(maps));
    assert_eq!(hilite_colors.len(maps), 0);
    assert_eq!(hilite_colors.quickdraw_hilite_color(maps, 0x1000), None);

    hilite_colors.set_quickdraw_hilite_color(maps, 0x1000, (0x1234, 0x5678, 0x9abc));
    assert!(!hilite_colors.is_pristine(maps));
    assert!(!hilite_colors.is_empty(maps));
    assert_eq!(hilite_colors.len(maps), 1);
    assert_eq!(
        hilite_colors.quickdraw_hilite_color(maps, 0x1000),
        Some((0x1234, 0x5678, 0x9abc))
    );

    let handle = hilite_colors.shared_handle();
    assert!(hilite_colors.ptr_eq(&handle));
    handle.set_quickdraw_hilite_color(maps, 0x2000, (0x1111, 0x2222, 0x3333));
    assert_eq!(hilite_colors.len(maps), 2);
    assert_eq!(
        hilite_colors.quickdraw_hilite_color(maps, 0x2000),
        Some((0x1111, 0x2222, 0x3333))
    );

    hilite_colors.remove_quickdraw_hilite_color(maps, 0x1000);
    assert_eq!(hilite_colors.len(maps), 1);
    assert_eq!(hilite_colors.quickdraw_hilite_color(maps, 0x1000), None);
    assert_eq!(
        hilite_colors.quickdraw_hilite_color(maps, 0x2000),
        Some((0x1111, 0x2222, 0x3333))
    );

    hilite_colors.clear(maps);
    assert!(hilite_colors.is_pristine(maps));
    assert!(hilite_colors.is_empty(maps));
    assert_eq!(hilite_colors.len(maps), 0);
}

#[test]
fn attached_quickdraw_hilite_colors_share_immediately_while_clones_detach() {
    let mut cells = ProcessCells::new();
    let context = new_context(&mut cells);
    let mut adapter = SharedProcessQuickDrawHiliteColors::new(&mut cells.hilite_colors);
    assert!(adapter.is_pristine(&cells.hilite_colors));

    context.attach_quickdraw_hilite_colors(&mut cells, &mut adapter);
    let maps = &mut cells.hilite_colors;
    let process = &context.quickdraw_hilite_colors;
    assert!(adapter.ptr_eq(process));

    adapter.set_quickdraw_hilite_color(maps, 0x1000, (0xaaaa, 0xbbbb, 0xcccc));
    assert_eq!(
        process.quickdraw_hilite_color(maps, 0x1000),
        Some((0xaaaa, 0xbbbb, 0xcccc))
    );
    assert_eq!(
        adapter.quickdraw_hilite_color(maps, 0x1000),
        Some((0xaaaa, 0xbbbb, 0xcccc))
    );

    let detached = adapter.detached_clone(maps);
    assert!(!detached.ptr_eq(&adapter));
    assert_eq!(
        detached.quickdraw_hilite_color(maps, 0x1000),
        Some((0xaaaa, 0xbbbb, 0xcccc))
    );

    detached.set_quickdraw_hilite_color(maps, 0x1000, (0x1111, 0x2222, 0x3333));
    assert_eq!(
        detached.quickdraw_hilite_color(maps, 0x1000),
        Some((0x1111, 0x2222, 0x3333))
    );
    assert_eq!(
        adapter.quickdraw_hilite_color(maps, 0x1000),
        Some((0xaaaa, 0xbbbb, 0xcccc))
    );
    assert_eq!(
        process.quickdraw_hilite_color(maps, 0x1000),
        Some((0xaaaa, 0xbbbb, 0xcccc))
    );
}

#[test]
fn process_quickdraw_pixel_states_encapsulation() {
    let mut cells = SharedCells::new();
    let maps = &mut cells;
    let pixel_states = SharedProcessQuickDrawPixelStates::new(maps);
    assert!(pixel_states.is_pristine(maps));
    assert!(pixel_states.is_empty(maps));
    assert_eq!(pixel_states.len(maps), 0);
    assert_eq!(pixel_states.quickdraw_pixel_state(maps, 0x1000), 0);
    assert!(!pixel_states.has_quickdraw_pixel_state(maps, 0x1000));

    pixel_states.set_quickdraw_pixel_state(maps, 0x1000, 0x88);
    assert!(!pixel_states.is_pristine(maps));
    assert!(!pixel_states.is_empty(maps));
    assert_eq!(pixel_states.len(maps), 1);
    assert_eq!(pixel_states.quickdraw_pixel_state(maps, 0x1000), 0x88);
    assert!(pixel_states.has_quickdraw_pixel_state(maps, 0x1000));

    let handle = pixel_states.shared_handle();
    assert!(pixel_states.ptr_eq(&handle));
    handle.set_quickdraw_pixel_state(maps, 0x2000, 0x48);
    assert_eq!(pixel_states.len(maps), 2);
    assert_eq!(pixel_states.quickdraw_pixel_state(maps, 0x2000), 0x48);

    let removed = pixel_states.remove_quickdraw_pixel_state(maps, 0x1000);
    assert_eq!(removed, Some(0x88));
    assert_eq!(pixel_states.len(maps), 1);
    assert_eq!(pixel_states.quickdraw_pixel_state(maps, 0x1000), 0);
    assert!(!pixel_states.has_quickdraw_pixel_state(maps, 0x1000));
    assert_eq!(pixel_states.quickdraw_pixel_state(maps, 0x2000), 0x48);

    pixel_states.clear(maps);
    assert!(pixel_states.is_pristine(maps));
    assert!(pixel_states.is_empty(maps));
    assert_eq!(pixel_states.len(maps), 0);
}

#[test]
fn attached_quickdraw_pixel_states_share_immediately_while_clones_detach() {
    let mut cells = ProcessCells::new();
    let context = new_context(&mut cells);
    let mut adapter = SharedProcessQuickDrawPixelStates::new(&mut cells.pixel_states);
    assert!(adapter.is_pristine(&cells.pixel_states));

    context.attach_quickdraw_pixel_states(&mut cells, &mut adapter);
    let maps = &mut cells.pixel_states;
    let process = &context.quickdraw_pixel_states;
    assert!(adapter.ptr_eq(process));

    adapter.set_quickdraw_pixel_state(maps, 0x1000, 0xc8);
    assert_eq!(process.quickdraw_pixel_state(maps, 0x1000), 0xc8);
    assert_eq!(adapter.quickdraw_pixel_state(maps, 0x1000), 0xc8);

    let detached = adapter.detached_clone(maps);
    assert!(!detached.ptr_eq(&adapter));
    assert_eq!(detached.quickdraw_pixel_state(maps, 0x1000), 0xc8);

    detached.set_quickdraw_pixel_state(maps, 0x1000, 0x88);
    assert_eq!(detached.quickdraw_pixel_state(maps, 0x1000), 0x88);
    assert_eq!(adapter.quickdraw_pixel_state(maps, 0x1000), 0xc8);
    assert_eq!(process.quickdraw_pixel_state(maps, 0x1000), 0xc8);
}

#[test]
fn process_graphics_port_encapsulation() {
    let mut cells = SharedCells::new();
    let ports = &mut cells;
    let port = SharedProcessGraphicsPort::new(ports);
    assert!(port.is_pristine(ports));
    assert!(port.is_null(ports));
    assert!(!port.is_valid(ports));
    assert_eq!(port.get(ports), 0);
    assert_eq!(port.snapshot(ports), 0);
    assert_eq!(port.to_text(ports), "0x00000000");

    let handle = port.shared_handle();
    assert!(port.ptr_eq(&handle));

    port.set(ports, 0x0012_3456);
    assert!(!port.is_pristine(ports));
    assert!(!port.is_null(ports));
    assert!(port.is_valid(ports));
    assert_eq!(port.get(ports), 0x0012_3456);
    assert_eq!(handle.get(ports), 0x0012_3456);
    assert_eq!(port.to_text(ports), "0x00123456");

    let prev = port.replace(ports, 0x00AB_CDEF);
    assert_eq!(prev, 0x0012_3456);
    assert_eq!(port.get(ports), 0x00AB_CDEF);
    assert_eq!(port.snapshot(ports), 0x00AB_CDEF);
    assert_eq!(port.to_text(ports), "0x00ABCDEF");

    port.clear(ports);
    assert!(port.is_pristine(ports));
    assert!(port.is_null(ports));
    assert_eq!(port.get(ports), 0);
}

#[test]
fn attached_graphics_ports_share_immediately_while_clones_detach() {
    let mut cells = ProcessCells::new();
    let context = new_context(&mut cells);
    let mut classic_port = SharedProcessGraphicsPort::new(&mut cells.ports);
    let mut classic_device = SharedProcessGraphicsDevice::new(&mut cells.devices);
    let mut native_port = SharedProcessGraphicsPort::new(&mut cells.ports);
    let mut native_device = SharedProcessGraphicsDevice::new(&mut cells.devices);

    context.attach_quickdraw_selection(&mut cells, &mut classic_port, &mut classic_device);
    context.activate_quickdraw_selection(&mut cells, &mut native_port, &mut native_device);
    let ports = &mut cells.ports;
    let process = &context.current_graphics_port;

    assert!(classic_port.ptr_eq(&native_port));
    assert!(classic_port.ptr_eq(process));

    classic_port.set(ports, 0x0020_0000);
    assert_eq!(native_port.get(ports), 0x0020_0000);
    assert_eq!(process.get(ports), 0x0020_0000);

    let detached = native_port.detached_clone(ports);
    assert!(!detached.ptr_eq(&native_port));

    detached.set(ports, 0x0030_0000);
    assert_eq!(detached.get(ports), 0x0030_0000);
    assert_eq!(native_port.get(ports), 0x0020_0000);
    assert_eq!(classic_port.get(ports), 0x0020_0000);
    assert_eq!(process.get(ports), 0x0020_0000);
}

#[test]
fn process_graphics_device_encapsulation() {
    let mut cells = SharedCells::new();
    let devices = &mut cells;
    let device = SharedProcessGraphicsDevice::new(devices);
    assert!(device.is_pristine(devices));
    assert!(device.is_null(devices));
    assert!(!device.is_valid(devices));
    assert_eq!(device.get(devices), 0);
    assert_eq!(device.snapshot(devices), 0);
    assert_eq!(device.to_text(devices), "0x00000000");

    let handle = device.shared_handle();
    assert!(device.ptr_eq(&handle));

    device.set(devices, 0x0023_4567);
    assert!(!device.is_pristine(devices));
    assert!(!device.is_null(devices));
    assert!(device.is_valid(devices));
    assert_eq!(device.get(devices), 0x0023_4567);
    assert_eq!(handle.get(devices), 0x0023_4567);
    assert_eq!(device.to_text(devices), "0x00234567");

    let prev = device.replace(devices, 0x00FE_DCBA);
    assert_eq!(prev, 0x0023_4567);
    assert_eq!(device.get(devices), 0x00FE_DCBA);
    assert_eq!(device.snapshot(devices), 0x00FE_DCBA);

    device.clear(devices);
    assert!(device.is_pristine(devices));
    assert!(device.is_null(devices));
    assert_eq!(device.get(devices), 0);
}

#[test]
fn attached_graphics_devices_share_immediately_while_clones_detach() {
    let mut cells = ProcessCells::new();
    let context = new_context(&mut cells);
    let mut classic_port = SharedProcessGraphicsPort::new(&mut cells.ports);
    let mut classic_device = SharedProcessGraphicsDevice::new(&mut cells.devices);
    let mut native_port = SharedProcessGraphicsPort::new(&mut cells.ports);
    let mut native_device = SharedProcessGraphicsDevice::new(&mut cells.devices);

    context.attach_quickdraw_selection(&mut cells, &mut classic_port, &mut classic_device);
    context.activate_quickdraw_selection(&mut cells, &mut native_port, &mut native_device);
    let devices = &mut cells.devices;
    let process = &context.current_graphics_device;

    assert!(classic_device.ptr_eq(&native_device));
    assert!(classic_device.ptr_eq(process));

    classic_device.set(devices, 0x0050_0000);
    assert_eq!(native_device.get(devices), 0x0050_0000);
    assert_eq!(process.get(devices), 0x0050_0000);

    let detached = native_device.detached_clone(devices);
    assert!(!detached.ptr_eq(&native_device));

    detached.set(devices, 0x0060_0000);
    assert_eq!(detached.get(devices), 0x0060_0000);
    assert_eq!(native_device.get(devices), 0x0050_0000);
    assert_eq!(classic_device.get(devices), 0x0050_0000);
    assert_eq!(process.get(devices), 0x0050_0000);
}
