# VVV

A bridge between a Discord channel and a Minecraft server. It follows the server's log, passes what
happens there on to Discord, and sends what is written in Discord to the server's console.

The rules of the bridge are a library, `src/`, whose functions state what they do in `requires` and
`ensures` clauses that Verus proves:

| Module | What it decides |
|---|---|
| `log_parser` | what a line of the server's log reports |
| `bot::types` | which reports reach Discord, and in what words |
| `bot::verification` | who may link which player with their Discord account |
| `bot::mentions` | how a name in one chat is a mention in the other |
| `bot::handler` | what passes between the two chats, and what is withheld |
| `bot::commands`, `bot::embed` | what the commands answer |
| `storage` | what is remembered, in memory and in the rows of the database |
| `stats` | what is counted of each player, per day of a time zone |
| `playerdata` | the pages of a player's profile |
| `rcon`, `relay` | how the console is reached, and the commands it is sent |
| `consts` | the configuration, from files and the environment |
| `text`, `text_map`, `order`, `decimal` | text, maps keyed by text, sorting, decimal numbers |

The functions named `law_...` state what holds across several of these. Calls into other crates
(`regex`, `url`, `base64`, `rand`, `chrono`, `chrono-tz`) stand in functions marked
`#[verifier::external_body]`; what is taken for granted of each is said above it.

`app/` is the program around the library: Discord, the database, the console's socket, files and
the clock. `tests/` runs the library on given values.
