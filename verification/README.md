# voxel_ray_traversal

A window that shows a small voxel scene, traced by a compute shader.

`src/` is a Verus library with what the program decides apart from floating point: which graphics
device and queue family to use, how the swapchain and the images are made, what the scene is, when
a frame is drawn and when the swapchain is made again, what the events of the window do to the
input, and which moves of the camera the input asks for. Its functions carry contracts, and the
properties that span several calls are proof functions whose names start with `law_`.

The library calls `winit_input_helper` to gather and read the input of a step, and `vulkano` for
extension sets, feature sets and queue attributes. What these calls are trusted to do stands in the
doc comments of `src/event.rs`, `src/input.rs` and `src/device.rs`.

`app/` is the program around it: the window, the graphics card, the shader compiler, the user
interface and the camera's floating-point arithmetic. It expects the shader in
`shaders/circle.comp`.

`tests/` runs the library together with the crates that it calls.
