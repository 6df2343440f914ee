use xhc_core::apic::LocalApicRegisters;
use xhc_core::apic::LocalApicTimer;
use xhc_core::apic::LocalApicTimerDivide;
use xhc_core::apic::LvtTimerAddr;
use xhc_core::dma::read_bytes;
use xhc_core::error::HeaderTypeReason;
use xhc_core::error::KernelError;
use xhc_core::error::LayerReason;
use xhc_core::error::PciError;
use xhc_core::layers::toolbar_background_layer;
use xhc_core::layers::toolbar_close_button;
use xhc_core::layers::toolbar_layer;
use xhc_core::layers::toolbar_title_layer;
use xhc_core::layers::ConsoleLayer;
use xhc_core::layers::CursorLayer;
use xhc_core::layers::Layer;
use xhc_core::layers::ShapeLayer;
use xhc_core::layers::TextColors;
use xhc_core::layers::TextLayer;
use xhc_core::layers::ToolbarLayer;
use xhc_core::layers::Transform2D;
use xhc_core::memory_map::memory_descriptor_record;
use xhc_core::memory_map::memory_map_header;
use xhc_core::pci_device::ConfigAddr;
use xhc_core::pci_device::GeneralHeader;
use xhc_core::pci_device::PciToPciBridgeHeader;
use xhc_core::pci_device::SingleFunctionDevice;
use xhc_core::pixel::PixelColor;
use xhc_core::simulated::SimulatedRegisters;
use xhc_core::vector::Size;
use xhc_core::vector::Vector2D;

const APIC: usize = 0xfee0_0000;

fn apic() -> SimulatedRegisters {
    SimulatedRegisters::new(APIC, vec![0; 0x100], true)
}

#[test]
fn timer_start_sets_divisor_vector_mode_and_count() {
    let mut mem = apic();
    let mut timer = LocalApicTimer::new();
    timer.start(&mut mem, LocalApicTimerDivide::By1);
    assert_eq!(mem.word(APIC + 0x3e0), 0b1011);
    assert_eq!(mem.word(APIC + 0x320), 0x0002_0041);
    assert_eq!(mem.word(APIC + 0x380), 0xffff_ffff);
}

#[test]
fn timer_start_unmasks_the_timer_and_keeps_the_other_bits() {
    let mut mem = apic();
    mem = {
        let mut words = vec![0u32; 0x100];
        words[0x320 / 4] = 0xfff9_ffff;
        words[0x3e0 / 4] = 0xffff_fff0;
        SimulatedRegisters::new(APIC, words, true)
    };
    let mut timer = LocalApicTimer::new();
    timer.start(&mut mem, LocalApicTimerDivide::By16);
    assert_eq!(mem.word(APIC + 0x320), 0xfffa_ff41);
    assert_eq!(mem.word(APIC + 0x3e0), 0xffff_fff3);
}

#[test]
fn timer_divisors_have_the_values_of_the_register() {
    assert_eq!(LocalApicTimerDivide::By1.register_value(), 0b1011);
    assert_eq!(LocalApicTimerDivide::By2.register_value(), 0b0000);
    assert_eq!(LocalApicTimerDivide::By4.register_value(), 0b0001);
    assert_eq!(LocalApicTimerDivide::By8.register_value(), 0b0010);
    assert_eq!(LocalApicTimerDivide::By16.register_value(), 0b0011);
    assert_eq!(LocalApicTimerDivide::By32.register_value(), 0b1000);
    assert_eq!(LocalApicTimerDivide::By64.register_value(), 0b1001);
    assert_eq!(LocalApicTimerDivide::By128.register_value(), 0b1010);
}

#[test]
fn timer_elapsed_counts_down_from_the_largest_count() {
    let mut words = vec![0u32; 0x100];
    words[0x390 / 4] = 0xffff_ff00;
    let mut mem = SimulatedRegisters::new(APIC, words, true);
    let timer = LocalApicTimer::new();
    assert_eq!(timer.elapsed(&mut mem), 0xff);
    let mut zero = apic();
    assert_eq!(timer.elapsed(&mut zero), 0xffff_ffff);
}

#[test]
fn timer_stop_clears_the_count() {
    let mut mem = apic();
    let mut timer = LocalApicTimer::new();
    timer.start(&mut mem, LocalApicTimerDivide::By1);
    timer.stop(&mut mem);
    assert_eq!(mem.word(APIC + 0x380), 0);
    assert_eq!(mem.word(APIC + 0x320), 0x0002_0041);
}

#[test]
fn interrupt_id_number_is_the_low_byte_of_the_timer_register() {
    let mut words = vec![0u32; 0x100];
    words[0x320 / 4] = 0x0003_00ab;
    let mut mem = SimulatedRegisters::new(APIC, words, true);
    let registers = LocalApicRegisters::default();
    assert_eq!(registers.interrupt_id_num.read_volatile(&mut mem), 0xab);
    assert_eq!(registers.mask.read_volatile(&mut mem), 1);
    assert_eq!(registers.timer_mode.read_volatile(&mut mem), 1);
    registers.interrupt_id_num.write_volatile(&mut mem, 0x41);
    assert_eq!(mem.word(APIC + 0x320), 0x0003_0041);
    assert_eq!(LvtTimerAddr::default().address(), APIC);
    assert!(LvtTimerAddr::new(usize::MAX - 0x3ff).is_none());
    assert_eq!(LvtTimerAddr::new(0x1000).unwrap().address(), 0x1000);
}

#[test]
fn memory_map_record_holds_its_numbers_most_significant_byte_first() {
    assert_eq!(
        memory_descriptor_record(0x0102_0304_0506_0708, 0x0a0b_0c0d, 0x1112_1314_1516_1718),
        [
            1, 2, 3, 4, 5, 6, 7, 8, 0x0a, 0x0b, 0x0c, 0x0d, 0x11, 0x12, 0x13, 0x14, 0x15, 0x16,
            0x17, 0x18
        ]
    );
    assert_eq!(memory_descriptor_record(0x10, 7, 0x10_0000)[..8], 0x10u64.to_be_bytes());
    assert_eq!(memory_descriptor_record(0x10, 7, 0x10_0000)[8..12], 7u32.to_be_bytes());
    assert_eq!(memory_descriptor_record(0x10, 7, 0x10_0000)[12..], 0x10_0000u64.to_be_bytes());
    assert_eq!(
        memory_map_header(),
        "Index, Type, Type(name), PhysicalStart, NumberOfPages, Attribute\n"
    );
}

#[test]
fn bytes_are_read_word_by_word() {
    let mut mem = SimulatedRegisters::new(0x1000, vec![0x0403_0201, 0x0807_0605, 0x0c0b_0a09], true);
    assert_eq!(read_bytes(&mut mem, 0x1000, 8), vec![1, 2, 3, 4, 5, 6, 7, 8]);
    assert_eq!(read_bytes(&mut mem, 0x1004, 5), vec![5, 6, 7, 8, 9]);
    assert_eq!(read_bytes(&mut mem, 0x1000, 1), vec![1]);
    assert_eq!(read_bytes(&mut mem, 0x1000, 0), vec![]);
    assert_eq!(read_bytes(&mut mem, 0x1008, 6), vec![9, 10, 11, 12, 0, 0]);
}

#[test]
fn a_general_header_is_expected_of_an_ordinary_device() {
    let config_addr = ConfigAddr { bus: 0, device: 3, function: 0 };
    let general = GeneralHeader { config_addr };
    assert_eq!(SingleFunctionDevice::General(general).expect_general(), Ok(general));
    assert_eq!(
        SingleFunctionDevice::PciToPciBride(PciToPciBridgeHeader { config_addr }).expect_general(),
        Err(PciError::InvalidHeaderType(HeaderTypeReason::NotGeneralHeader))
    );
}

fn colors(n: u8) -> TextColors {
    TextColors::new(PixelColor::new(n, n, n), PixelColor::new(n + 1, n + 2, n + 3))
}

fn transform() -> Transform2D {
    Transform2D::new(Vector2D::new(10, 20), Size::new(300, 24))
}

#[test]
fn layers_are_asked_for_by_their_kind() {
    let illegal = KernelError::FailedOperateLayer(LayerReason::IllegalLayer);
    let mut cursor = Layer::Cursor(CursorLayer { pos: Vector2D::new(1, 2) });
    cursor.require_cursor().unwrap().pos = Vector2D::new(3, 4);
    assert_eq!(cursor.require_cursor().unwrap().pos, Vector2D::new(3, 4));
    assert_eq!(cursor.require_console().err(), Some(illegal));
    let mut console = Layer::Console(ConsoleLayer { transform: transform() });
    assert_eq!(console.require_console().unwrap().transform, transform());
    assert_eq!(console.require_cursor().err(), Some(illegal));
    let mut shape = ShapeLayer::new(PixelColor::white(), transform()).into_enum();
    assert_eq!(shape.require_cursor().err(), Some(illegal));
    assert_eq!(shape.require_console().err(), Some(illegal));
}

#[test]
fn a_layer_is_found_by_its_key() {
    let key = ShapeLayer::new(PixelColor::white(), transform()).into_enum().into_layer_key("shape");
    assert_eq!(key.key, "shape");
    assert!(matches!(key.layer, Layer::Shape(ShapeLayer { color, .. }) if color == PixelColor::white()));
}

#[test]
fn text_layer_takes_ascii_only() {
    let mut text = TextLayer::new(Vector2D::new(24, 4), Size::new(12, 1), colors(1));
    assert_eq!(text.update_string("window"), Ok(()));
    assert_eq!(text.text, "window");
    assert_eq!(text.update_string("fenêtre"), Err(KernelError::NotSupportCharacter));
    assert_eq!(text.text, "window");
    assert_eq!(text.change_colors(colors(9)), Ok(()));
    assert_eq!(text.colors, colors(9));
    assert_eq!(text.text, "window");
}

#[test]
fn toolbar_parts_are_made_with_their_keys() {
    let background = toolbar_background_layer(transform(), colors(1));
    assert_eq!(background.key, "Window Toolbar Background");
    assert!(matches!(
        background.layer,
        Layer::Shape(ShapeLayer { color, transform: t }) if color == colors(1).background && t == transform()
    ));
    let title = toolbar_title_layer("title", colors(1));
    assert_eq!(title.key, "Window Toolbar Title");
    match title.layer {
        Layer::Text(text) => {
            assert_eq!(text.text, "title");
            assert_eq!(text.colors, colors(1));
            assert_eq!(text.pos, Vector2D::new(24, 4));
            assert_eq!(text.text_frame_size, Size::new(12, 1));
        }
        _ => panic!("the title is a text"),
    }
    let button = toolbar_close_button(&transform());
    assert_eq!(button.key, "toolbar close button");
    match button.layer {
        Layer::CloseButton(button) => assert_eq!(button.pos, Vector2D::new(300 - 16 - 5, 5)),
        _ => panic!("the button is a close button"),
    }
    let smallest = toolbar_close_button(&Transform2D::new(Vector2D::zeros(), Size::new(21, 14)));
    match smallest.layer {
        Layer::CloseButton(button) => assert_eq!(button.pos, Vector2D::new(0, 0)),
        _ => panic!("the button is a close button"),
    }
}

#[test]
fn toolbar_is_made_of_background_title_and_close_button() {
    let layers = toolbar_layer("title", transform(), colors(1));
    assert_eq!(layers.transform(), transform());
    assert_eq!(layers.layers.len(), 3);
    assert_eq!(layers.layers[0].key, "Window Toolbar Background");
    assert_eq!(layers.layers[1].key, "Window Toolbar Title");
    assert_eq!(layers.layers[2].key, "toolbar close button");
}

fn shown(toolbar: &ToolbarLayer) -> (PixelColor, TextColors, String) {
    (toolbar.background_color(), toolbar.shown_colors(), toolbar.title_text().to_string())
}

#[test]
fn toolbar_changes_its_colours_with_its_window() {
    let mut toolbar = ToolbarLayer::new("title", transform(), colors(5), colors(1));
    assert_eq!(shown(&toolbar), (colors(1).background, colors(1), "title".to_string()));
    assert_eq!(toolbar.activate(), Ok(()));
    assert_eq!(shown(&toolbar), (colors(5).background, colors(5), "title".to_string()));
    assert_eq!(toolbar.activate(), Ok(()));
    assert_eq!(shown(&toolbar), (colors(5).background, colors(5), "title".to_string()));
    assert_eq!(toolbar.deactivate(), Ok(()));
    assert_eq!(shown(&toolbar), (colors(1).background, colors(1), "title".to_string()));
    assert_eq!(toolbar.deactivate(), Ok(()));
    assert_eq!(shown(&toolbar), (colors(1).background, colors(1), "title".to_string()));
    assert!(matches!(toolbar.into_enum(), Layer::Toolbar(_)));
}
