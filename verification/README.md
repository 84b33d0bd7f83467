# Tunnelhunt

The desktop client of Tunnelhunt makes a local port public through an `ssh` tunnel and lives in the
system tray. What it decides is in `src/`, written and proved in Verus; what touches the system is
in `app/`.

| module | what it decides |
| --- | --- |
| `monitor` | the life of one tunnel: when `ssh` is launched, killed and launched again, and what is shown |
| `life` | what holds of such a life as a whole |
| `registry` | which tunnels were started, their states, and who is asked to stop |
| `tunnel`, `preset` | the state of a tunnel, and what a tunnel is made from |
| `ssh` | the server and the arguments of `ssh` |
| `url` | the address in a line of output |
| `tray`, `paths`, `notice` | the tray, directories, and what the user is told |
| `text`, `number` | searching, trimming and decimal numbers |
