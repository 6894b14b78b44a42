# quant_planet

A planet made of particles ("quants"), simulated and drawn by ray marching on
the GPU. The crate is split in two:

- `src/` is a Verus-verified library holding the simulation's discrete logic:
  - `matter`: the kinds of matter, their ids, and the random draw of base
    matter for new quants;
  - `schedule`: the order of a planet's update step by step (each quant is
    advanced, then collided with every other quant), with laws that every step
    comes exactly once and in which order;
  - `layout`: the layout of the particle buffer and of the view matrix handed
    to the shaders;
  - `select`: picking the nearby planet and the visible quants from masks;
  - `controls`: the frame loop's answers to window events and its integer
    sizes and timings.
- `app/` is the program around it: the floating-point physics and camera
  (cgmath), the SDL3 window and GPU renderer, and the GLSL shaders.
