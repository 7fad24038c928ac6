# fibonacci_sphere

Evenly distributed sample points on a sphere (Fibonacci lattices and a latitude–longitude
baseline), with spherical Delaunay connectivity, Voronoi terrain areas, surface routing
and render meshes. Coordinates are Y-up and right-handed.

## Layout

- `src/` — the verified library, written in Verus. It holds every combinatorial part:
  method metadata and ε tables, the latitude–longitude ring layout, the assembly of the
  spherical mesh from its planar triangulation, the Bowyer–Watson cavity steps, Voronoi
  face ordering, boundary neighbors and dual edges, the routing graph, route planning and
  path read-back, terrain types and bands, area and border classification, coastline
  edges, random and cluster terrain assignment, reassignment rules, polar cap freezing,
  and the index layouts of render meshes. Contracts state results exactly except where a
  random draw decides; there they state what holds of every draw, and a function one
  call down takes the draw as an argument and states its result exactly
  (`index_from_draw`, `terrain_from_draw`, `item_from_draw`, `shuffle_with_draws`).
  The laws relating several functions are proof functions.
- `tests/` — tests of the library on concrete values.
- `app/` — the floating-point front end: point generators, geometry on coordinates
  (in-circle and hull tests, projections, circumcenters, tangent angles), Perlin noise
  terrain, least-cost flood fills, Dijkstra on geodesic weights, render vertex data and
  displayable errors. It calls the library for every decision that does not depend on
  floating-point values.

## Conventions

- Routing-graph edge weights are `f64` values stored as their IEEE-754 bit patterns.
- ε values of the offset lattices are given in hundredths (`EPSILON_SCALE`).
- Random draws come from rand's `StdRng`; contracts hold whatever it produces. A fixed
  seed is proved to give the same generator; what that generator draws is not described.
