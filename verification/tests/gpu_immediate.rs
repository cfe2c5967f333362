use rt_rust::gpu_immediate::{
    padding, AttribPointer, BeginPlan, GPUAttrBinding, GPUImmediateState, GPUPrimType,
    GPUVertAttr, GPUVertCompType, GPUVertFetchMode, GPUVertFormat, GPU_VERT_ATTR_MAX_LEN,
    IMM_DEFAULT_BUFFER_SIZE,
};

fn pos_color_format(format: &mut GPUVertFormat) -> (usize, usize) {
    let pos = format.add_attribute(
        "in_pos\0".to_string(),
        GPUVertCompType::F32,
        3,
        GPUVertFetchMode::Float,
    );
    let color = format.add_attribute(
        "in_color\0".to_string(),
        GPUVertCompType::F32,
        4,
        GPUVertFetchMode::Float,
    );
    (pos, color)
}

#[test]
fn padding_moves_to_the_next_multiple() {
    assert_eq!(padding(0, 4), 0);
    assert_eq!(padding(12, 4), 0);
    assert_eq!(padding(13, 4), 3);
    assert_eq!(padding(15, 4), 1);
    assert_eq!(padding(100, 28), 12);
    assert_eq!((100 + padding(100, 28)) % 28, 0);
}

#[test]
fn attribute_sizes_and_alignments() {
    let mut attr = GPUVertAttr::new();
    assert_eq!(attr.comp_sz(&GPUVertCompType::I8), 1);
    assert_eq!(attr.comp_sz(&GPUVertCompType::U16), 2);
    assert_eq!(attr.comp_sz(&GPUVertCompType::F32), 4);
    assert_eq!(attr.comp_sz(&GPUVertCompType::I10), 4);

    attr.comp_type = GPUVertCompType::U8;
    attr.comp_len = 3;
    assert_eq!(attr.attr_sz(), 3);
    // three single byte components are padded out to four bytes
    assert_eq!(attr.attr_align(), 4);

    attr.comp_type = GPUVertCompType::I16;
    attr.comp_len = 3;
    assert_eq!(attr.attr_sz(), 6);
    assert_eq!(attr.attr_align(), 2);

    attr.comp_type = GPUVertCompType::I10;
    attr.comp_len = 4;
    assert_eq!(attr.attr_sz(), 4);
    assert_eq!(attr.attr_align(), 4);
}

#[test]
fn binding_reads_back_what_was_written() {
    assert_eq!(GPU_VERT_ATTR_MAX_LEN, 16);
    let mut binding = GPUAttrBinding::new();
    binding.write_attr_location(2, 5);
    binding.write_attr_location(15, 9);
    assert_eq!(binding.read_attr_location(2), 5);
    assert_eq!(binding.read_attr_location(15), 9);
    assert_eq!(binding.read_attr_location(0), 0);
    binding.write_attr_location(2, 7);
    assert_eq!(binding.read_attr_location(2), 7);
    assert_eq!(binding.read_attr_location(15), 9);
    binding.clear();
    assert_eq!(binding.read_attr_location(2), 0);
    assert_eq!(binding.read_attr_location(15), 0);
}

#[test]
fn pack_lays_out_attributes() {
    let mut format = GPUVertFormat::new();
    let (pos, color) = pos_color_format(&mut format);
    assert_eq!((pos, color), (0, 1));
    format.pack();
    let attrs = format.get_attrs();
    assert_eq!(attrs.len(), 2);
    assert_eq!(attrs[0].offset, 0);
    assert_eq!(attrs[0].sz, 12);
    assert_eq!(attrs[1].offset, 12);
    assert_eq!(attrs[1].sz, 16);
    assert_eq!(format.get_stride(), 28);
    assert_eq!(format.vertex_buffer_size(10), 280);
}

#[test]
fn pack_pads_misaligned_attributes() {
    let mut format = GPUVertFormat::new();
    format.add_attribute("c".to_string(), GPUVertCompType::U8, 3, GPUVertFetchMode::IntToFloatUnit);
    format.add_attribute("uv".to_string(), GPUVertCompType::F32, 2, GPUVertFetchMode::Float);
    format.add_attribute("n".to_string(), GPUVertCompType::I10, 3, GPUVertFetchMode::IntToFloatUnit);
    format.pack();
    let attrs = format.get_attrs();
    assert_eq!(attrs[0].offset, 0);
    assert_eq!(attrs[1].offset, 4);
    assert_eq!(attrs[2].offset, 12);
    assert_eq!(attrs[2].comp_len, 4);
    assert_eq!(format.get_stride(), 16);

    format.clear();
    assert_eq!(format.get_attrs().len(), 0);
}

#[test]
fn begin_then_end_draws_the_vertices() {
    let mut imm = GPUImmediateState::new();
    pos_color_format(imm.get_cleared_vertex_format());
    let plan = imm.begin(GPUPrimType::Lines, 2, &[3, 1]);
    assert_eq!(
        plan,
        BeginPlan {
            reallocate: false,
            buffer_size: IMM_DEFAULT_BUFFER_SIZE,
            offset: 0,
            bytes: 56,
            explicit_flush: false,
        }
    );

    // first vertex: both attributes given
    assert_eq!(imm.attr_value_offset(1), 12);
    assert_eq!(imm.attr_value_offset(0), 0);
    assert!(imm.end_vertex().is_empty());
    // second vertex: only the position given, the color is copied
    assert_eq!(imm.attr_value_offset(0), 0);
    assert_eq!(imm.end_vertex(), vec![(12, 16)]);

    let end = imm.end();
    assert_eq!(end.flush_bytes, None);
    assert!(end.draw);
    assert_eq!(end.prim_type, GPUPrimType::Lines);
    assert_eq!(end.vertex_count, 2);
    assert_eq!(end.toggles, vec![(0, true), (1, true)]);
    assert_eq!(
        end.pointers,
        vec![
            AttribPointer {
                location: 3,
                comp_len: 3,
                comp_type: GPUVertCompType::F32,
                normalized: false,
                integer: false,
                stride: 28,
                offset: 0,
            },
            AttribPointer {
                location: 1,
                comp_len: 4,
                comp_type: GPUVertCompType::F32,
                normalized: false,
                integer: false,
                stride: 28,
                offset: 12,
            },
        ]
    );

    // the next primitive goes after the first one, with no toggles
    // since the same arrays stay enabled
    let plan = imm.begin(GPUPrimType::Tris, 3, &[3, 1]);
    assert_eq!(plan.offset, 56);
    assert!(!plan.reallocate);
    for _ in 0..3 {
        imm.set_attr_value_bit(0);
        imm.set_attr_value_bit(1);
        assert!(imm.end_vertex().is_empty());
    }
    let end = imm.end();
    assert!(end.toggles.is_empty());
    assert_eq!(end.pointers[0].offset, 56);
    assert_eq!(end.pointers[1].offset, 68);
}

#[test]
fn begin_at_most_flushes_what_was_written() {
    let mut imm = GPUImmediateState::new();
    pos_color_format(imm.get_cleared_vertex_format());
    let plan = imm.begin_at_most(GPUPrimType::LineStrip, 10, &[0, 1]);
    assert!(plan.explicit_flush);
    assert_eq!(plan.bytes, 280);
    for _ in 0..3 {
        imm.set_attr_value_bit(0);
        imm.set_attr_value_bit(1);
        imm.end_vertex();
    }
    let end = imm.end();
    assert_eq!(end.flush_bytes, Some(84));
    assert_eq!(end.vertex_count, 3);
    assert!(end.draw);

    // nothing written: nothing drawn
    let plan = imm.begin_at_most(GPUPrimType::LineStrip, 10, &[0, 1]);
    assert_eq!(plan.offset, 84);
    let end = imm.end();
    assert_eq!(end.flush_bytes, Some(0));
    assert!(!end.draw);
    assert!(end.pointers.is_empty());
}

#[test]
fn begin_reallocates_when_the_buffer_is_too_small() {
    let mut imm = GPUImmediateState::new();
    pos_color_format(imm.get_cleared_vertex_format());
    let vertex_len = IMM_DEFAULT_BUFFER_SIZE / 28 + 1;
    let plan = imm.begin(GPUPrimType::Points, vertex_len, &[0, 1]);
    assert!(plan.reallocate);
    assert_eq!(plan.offset, 0);
    assert_eq!(plan.buffer_size, vertex_len * 28);
    assert_eq!(plan.bytes, vertex_len * 28);
}

#[test]
fn packing_stride_before_packing() {
    let mut format = GPUVertFormat::new();
    assert_eq!(format.packing_stride(), None);
    pos_color_format(&mut format);
    assert!(!format.is_packed());
    assert_eq!(format.packing_stride(), Some(28));
    format.pack();
    assert!(format.is_packed());
    assert_eq!(format.get_stride(), 28);

    // offsets past one byte cannot be packed
    let mut wide = GPUVertFormat::new();
    for _ in 0..17 {
        wide.add_attribute("v".to_string(), GPUVertCompType::F32, 4, GPUVertFetchMode::Float);
    }
    assert_eq!(wide.packing_stride(), None);
}

#[test]
fn state_getters_follow_the_primitive() {
    let mut imm = GPUImmediateState::new();
    assert_eq!(imm.get_prim_type(), GPUPrimType::Unset);
    assert!(imm.is_strict_vertex_len());
    pos_color_format(imm.get_cleared_vertex_format());
    assert_eq!(imm.get_vertex_format().get_attrs().len(), 2);
    imm.begin_at_most(GPUPrimType::Tris, 6, &[0, 1]);
    assert_eq!(imm.get_prim_type(), GPUPrimType::Tris);
    assert!(!imm.is_strict_vertex_len());
    assert_eq!(imm.get_vertex_len(), 6);
    assert_eq!(imm.get_vertex_idx(), 0);
    assert_eq!(imm.get_unassigned_attr_bits(), 0b11);
    imm.set_attr_value_bit(1);
    assert_eq!(imm.get_unassigned_attr_bits(), 0b01);
    imm.set_attr_value_bit(0);
    imm.end_vertex();
    assert_eq!(imm.get_vertex_idx(), 1);
    assert_eq!(imm.get_unassigned_attr_bits(), 0b11);
    assert_eq!(imm.get_buffer_offset(), 0);
    imm.end();
    assert_eq!(imm.get_prim_type(), GPUPrimType::Unset);
    assert_eq!(imm.get_buffer_offset(), 28);
}
