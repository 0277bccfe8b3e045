use avm::framebuffer::{Framebuffer, FrameError, Rect, PIXMAN_X8R8G8B8};

#[test]
fn update_copies_only_the_announced_rectangle_with_padded_strides() {
    let mut frame = Framebuffer::from_scanout(3, 2, 16, PIXMAN_X8R8G8B8, &[0; 32]).unwrap();
    let update = [1, 2, 3, 4, 5, 6, 7, 8, 99, 99, 99, 99];
    frame
        .apply_update(Rect { x: 1, y: 1, width: 2, height: 1 }, 12, PIXMAN_X8R8G8B8, &update)
        .unwrap();
    assert_eq!(&frame.bytes()[20..28], &update[..8]);
    assert!(frame.bytes()[..20].iter().all(|byte| *byte == 0));
    assert!(frame.bytes()[28..].iter().all(|byte| *byte == 0));
}

#[test]
fn rejects_updates_outside_the_current_scanout() {
    let mut frame = Framebuffer::from_scanout(2, 2, 8, PIXMAN_X8R8G8B8, &[0; 16]).unwrap();
    let error = frame
        .apply_update(Rect { x: 1, y: 0, width: 2, height: 1 }, 8, PIXMAN_X8R8G8B8, &[0; 8])
        .unwrap_err();
    assert!(error.message().contains("outside scanout"));
}

#[test]
fn png_conversion_handles_little_endian_xrgb() {
    let frame = Framebuffer::from_scanout(1, 1, 4, PIXMAN_X8R8G8B8, &[1, 2, 3, 0]).unwrap();
    let bytes = frame.png_bytes().unwrap();
    let pixel = image::load_from_memory_with_format(&bytes, image::ImageFormat::Png)
        .unwrap()
        .into_rgba8()
        .get_pixel(0, 0)
        .0;
    assert_eq!(pixel, [3, 2, 1, 255]);
}

#[test]
fn scanout_shape_is_checked() {
    assert_eq!(
        Framebuffer::from_scanout(0, 1, 4, PIXMAN_X8R8G8B8, &[0; 4]).unwrap_err(),
        FrameError::NonPositiveDimensions
    );
    assert_eq!(
        Framebuffer::from_scanout(2, 1, 4, PIXMAN_X8R8G8B8, &[0; 8]).unwrap_err(),
        FrameError::StrideTooSmall
    );
    let short = Framebuffer::from_scanout(2, 2, 8, PIXMAN_X8R8G8B8, &[0; 15]).unwrap_err();
    assert_eq!(short.message(), "scanout has 15 bytes, expected 16");
}

#[test]
fn frame_hash_is_the_sha256_of_its_bytes() {
    let frame = Framebuffer::from_scanout(1, 1, 4, PIXMAN_X8R8G8B8, &[0, 0, 0, 0]).unwrap();
    assert_eq!(
        frame.sha256(),
        "df3f619804a92fdb4057192dc43dd748ea778adc52bc498ce80524c014b81119"
    );
    assert_eq!((frame.width(), frame.height(), frame.stride(), frame.format()), (1, 1, 4, PIXMAN_X8R8G8B8));
}

#[test]
fn format_change_without_scanout_is_refused() {
    let mut frame = Framebuffer::from_scanout(1, 1, 4, PIXMAN_X8R8G8B8, &[0; 4]).unwrap();
    let error = frame
        .apply_update(Rect { x: 0, y: 0, width: 1, height: 1 }, 4, 0x2002_8888, &[1; 4])
        .unwrap_err();
    assert_eq!(error, FrameError::FormatChanged);
    assert_eq!(frame.bytes(), &[0, 0, 0, 0]);
}
